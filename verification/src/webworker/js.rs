//! The initialization code an isolated worker context runs, and the path
//! arithmetic for locating the module it should import.

use vstd::prelude::*;

use vstd::string::StrSliceExecFns;
use vstd::string::StringExecFns;

verus! {

/// The worker's bootstrap script, up to the first mention of the module
/// path. The script imports the module, reports the handshake, and then
/// answers each request by looking the function name up in the module's
/// exports.
pub const WORKER_CODE_HEAD: &'static str = r#"
console.debug('Initializing worker');

(async () => {
    let mod;
    try {
        console.info('Importing "#;

/// Between the logged module path and the imported one.
pub const WORKER_CODE_IMPORT: &'static str = r#"');
        mod = await import('"#;

/// Between the imported module path and the one named in the load error.
pub const WORKER_CODE_CATCH: &'static str = r#"');
    } catch (e) {
        console.error('Unable to import module "#;

/// The remainder of the script: the handshake message and the request
/// listener.
pub const WORKER_CODE_TAIL: &'static str = r#"', e);
        self.postMessage({ success: false, message: e.toString() });
        return;
    }

    await mod.default();
    self.postMessage({ success: true });
    console.debug('Worker started');

    self.addEventListener('message', async event => {
        console.debug('Received worker event');
        const { id, func_name, arg } = event.data;

        const webworker_func_name = `__webworker_${func_name}`;
        const fn = mod[webworker_func_name];
        if (!fn) {
            console.error(`Function '${func_name}' is not exported.`);
            self.postMessage({ id: id, response: null });
            return;
        }

        const worker_result = await fn(arg);

        // Send response back to be handled by callback in main thread.
        console.debug('Send worker result');
        self.postMessage({ id: id, response: worker_result });
    });
})();
"#;

/// The bootstrap script a worker context runs, with every mention of the
/// module path filled in with `wasm_path`. The embedding loads this text
/// into the isolated context as its entry script.
pub fn worker_code(wasm_path: &str) -> (code: String)
    ensures
        code@ == WORKER_CODE_HEAD@ + wasm_path@ + WORKER_CODE_IMPORT@ + wasm_path@
            + WORKER_CODE_CATCH@ + wasm_path@ + WORKER_CODE_TAIL@,
{
    let mut code = WORKER_CODE_HEAD.to_owned();
    code.append(wasm_path);
    code.append(WORKER_CODE_IMPORT);
    code.append(wasm_path);
    code.append(WORKER_CODE_CATCH);
    code.append(wasm_path);
    code.append(WORKER_CODE_TAIL);
    code
}

/// The suffix that marks a bindings-glue file name.
pub open spec fn bg_suffix() -> Seq<char> {
    seq!['_', 'b', 'g', '.', 'j', 's']
}

/// The plain script suffix that replaces it.
pub open spec fn js_suffix() -> Seq<char> {
    seq!['.', 'j', 's']
}

/// Normalizes the inferred module URL: a URL naming the bindings glue
/// itself (ending in the glue suffix) is rewritten to the module beside
/// it, any other URL is kept as it is.
pub fn main_js_path(url: &str) -> (r: String)
    ensures
        (url@.len() >= 6 && url@.subrange(url@.len() - 6, url@.len() as int) == bg_suffix())
            ==> r@ == url@.subrange(0, url@.len() - 6) + js_suffix(),
        !(url@.len() >= 6 && url@.subrange(url@.len() - 6, url@.len() as int) == bg_suffix())
            ==> r@ == url@,
{
    let n = url.unicode_len();
    if n >= 6 {
        let is_bg = url.get_char(n - 6) == '_' && url.get_char(n - 5) == 'b' && url.get_char(n - 4)
            == 'g' && url.get_char(n - 3) == '.' && url.get_char(n - 2) == 'j' && url.get_char(
            n - 1,
        ) == 's';
        proof {
            let tail = url@.subrange(url@.len() - 6, url@.len() as int);
            if is_bg {
                assert(tail =~= bg_suffix());
            } else {
                if tail == bg_suffix() {
                    assert(url@[url@.len() - 6] == '_');
                    assert(url@[url@.len() - 5] == 'b');
                    assert(url@[url@.len() - 4] == 'g');
                    assert(url@[url@.len() - 3] == '.');
                    assert(url@[url@.len() - 2] == 'j');
                    assert(url@[url@.len() - 1] == 's');
                }
            }
        }
        if is_bg {
            let mut out = url.substring_char(0, n - 6).to_owned();
            out.append(".js");
            proof {
                reveal_strlit(".js");
                assert(".js"@ =~= js_suffix());
            }
            return out;
        }
    }
    url.to_owned()
}

} // verus!

//! The worker bootstrap script and the module-path normalization.

use wasmworker::webworker::js::{
    main_js_path, worker_code, WORKER_CODE_CATCH, WORKER_CODE_HEAD, WORKER_CODE_IMPORT,
    WORKER_CODE_TAIL,
};

#[test]
fn worker_code_mentions_the_path_at_every_marker() {
    let code = worker_code("./pkg/app.js");
    let expected = format!(
        "{}{p}{}{p}{}{p}{}",
        WORKER_CODE_HEAD,
        WORKER_CODE_IMPORT,
        WORKER_CODE_CATCH,
        WORKER_CODE_TAIL,
        p = "./pkg/app.js"
    );
    assert_eq!(code, expected);
    assert_eq!(code.matches("./pkg/app.js").count(), 3);
    assert!(code.contains("import('./pkg/app.js')"));
}

#[test]
fn bindings_glue_url_is_rewritten_to_the_module() {
    assert_eq!(main_js_path("wasmworker_demo_bg.js"), "wasmworker_demo.js");
    assert_eq!(main_js_path("https://host/pkg/app_bg.js"), "https://host/pkg/app.js");
}

#[test]
fn other_urls_are_kept_as_they_are() {
    assert_eq!(main_js_path("wasmworker_demo.js"), "wasmworker_demo.js");
    assert_eq!(main_js_path("app"), "app");
    assert_eq!(main_js_path(""), "");
    assert_eq!(main_js_path("_bg.js"), ".js");
}

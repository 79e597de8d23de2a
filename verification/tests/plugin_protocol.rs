use zpic::body::{chunk_offsets, chunk_progress, DEFAULT_CHUNK_SIZE};
use zpic::error::ZpicError;
use zpic::fields::{FieldValue, Fields};
use zpic::registry::{PluginManifest, PluginUploaderManifest, UploaderDescriptorKind, UploaderFieldSchema};
use zpic::upload::{UploadContext, UploadInput};
use zpic::wasm::{
    plugin_descriptors, plugin_upload_outcome, plugin_validation_result, plugin_wasm_path,
    unpack_ptr_len, WasmConfigValidationResponse, WasmUploadRequest, WasmUploadResponse,
};

#[test]
fn chunk_offsets_cover_whole_buffer() {
    let body = bytes::Bytes::from(vec![0u8; 100]);
    let offsets = chunk_offsets(100, 64);
    assert_eq!(offsets, vec![(0, 64), (64, 100)]);
    let _ = body.slice(0..64);
    assert_eq!(body.len(), 100);
}

#[test]
fn chunk_offsets_of_empty_body() {
    assert!(chunk_offsets(0, DEFAULT_CHUNK_SIZE).is_empty());
    assert_eq!(chunk_offsets(128, 64), vec![(0, 64), (64, 128)]);
}

#[test]
fn chunk_progress_is_capped_at_total() {
    assert_eq!(chunk_progress(0, 64, 100), 64);
    assert_eq!(chunk_progress(1, 64, 100), 100);
    assert_eq!(chunk_progress(usize::MAX, usize::MAX, 7), 7);
}

#[test]
fn unpack_splits_pointer_and_length() {
    let (ptr, len) = unpack_ptr_len(665719930880).unwrap();
    assert_eq!((ptr, len), (0, 155));
    assert_eq!(unpack_ptr_len((12i64 << 32) | 40).unwrap(), (40, 12));
}

#[test]
fn unpack_rejects_negative_halves() {
    let err = expect_err(unpack_ptr_len(-1));
    assert_eq!(err.message(), "upload failed: plugin returned an invalid pointer/length pair");
    assert!(unpack_ptr_len(0x8000_0000).is_err());
}

fn expect_err<T, E>(r: Result<T, E>) -> E {
    match r {
        Ok(_) => panic!("expected an error"),
        Err(e) => e,
    }
}

fn input() -> UploadInput {
    UploadInput::new("cover.png".into(), "cover.png".into(), "image/png".into(), b"png".to_vec())
}

fn empty_response() -> WasmUploadResponse {
    WasmUploadResponse {
        url: None,
        key: None,
        markdown: None,
        mime: None,
        size: None,
        width: None,
        height: None,
        uploader: None,
        error: None,
    }
}

#[test]
fn plugin_answer_becomes_upload_output() {
    let ctx = UploadContext::new("images/plugin.png".into(), "test".into());
    let resp = WasmUploadResponse {
        url: Some("https://plugins.example/uploaded.png".into()),
        key: Some("plugin/key.png".into()),
        markdown: Some("![plugin](https://plugins.example/uploaded.png)".into()),
        uploader: Some("plugin-demo".into()),
        ..empty_response()
    };
    let out = plugin_upload_outcome("demo", "plugin-demo", &input(), &ctx, resp).ok().expect("output");
    assert_eq!(out.url, "https://plugins.example/uploaded.png");
    assert_eq!(out.key, "plugin/key.png");
    assert_eq!(out.uploader, "plugin-demo");
    assert_eq!(out.size, 3);
    assert_eq!(out.mime, "image/png");
}

#[test]
fn plugin_answer_fills_missing_fields_from_request() {
    let ctx = UploadContext::new("images/plugin.png".into(), "test".into());
    let resp = WasmUploadResponse { url: Some("https://x/a.png".into()), width: Some(4), ..empty_response() };
    let out = plugin_upload_outcome("demo", "demo-type", &input(), &ctx, resp).ok().expect("output");
    assert_eq!(out.key, "images/plugin.png");
    assert_eq!(out.markdown, "![cover.png](https://x/a.png)");
    assert_eq!(out.uploader, "demo-type");
    assert_eq!(out.width, Some(4));
    assert_eq!(out.height, None);
}

#[test]
fn plugin_error_and_missing_url_fail() {
    let ctx = UploadContext::new("k".into(), "test".into());
    let resp = WasmUploadResponse { error: Some("quota".into()), url: Some("u".into()), ..empty_response() };
    let err = expect_err(plugin_upload_outcome("demo", "t", &input(), &ctx, resp));
    assert!(matches!(err, ZpicError::UploadFailed(ref m) if m == "quota"));
    let err = expect_err(plugin_upload_outcome("demo", "t", &input(), &ctx, empty_response()));
    assert!(matches!(err, ZpicError::UploadFailed(ref m) if m == "plugin `demo` did not return a URL"));
}

#[test]
fn upload_request_carries_base64_bytes() {
    let mut fields = Fields::new();
    fields.insert("token".into(), FieldValue::Text("t".into()));
    let mut ctx = UploadContext::new("images/a.png".into(), "test".into());
    ctx.dry_run = true;
    let req = WasmUploadRequest::new("demo", &fields, &input(), &ctx);
    assert_eq!(req.bytes_base64, "cG5n");
    assert_eq!(req.uploader_type, "demo");
    assert_eq!(req.target_key, "images/a.png");
    assert!(req.dry_run);
    assert_eq!(req.size, 3);
    assert_eq!(req.config.len(), 1);
}

#[test]
fn plugin_validation_verdicts() {
    assert!(plugin_validation_result("demo", Ok(WasmConfigValidationResponse { ok: true, error: None })).is_ok());
    let err = expect_err(plugin_validation_result("demo", Ok(WasmConfigValidationResponse { ok: false, error: None })));
    assert!(matches!(err, ZpicError::ConfigInvalid(ref m) if m == "plugin `demo` rejected the config"));
    let err = expect_err(plugin_validation_result(
        "demo",
        Ok(WasmConfigValidationResponse { ok: false, error: Some("token missing".into()) }),
    ));
    assert!(matches!(err, ZpicError::ConfigInvalid(ref m) if m == "token missing"));
    let missing = ZpicError::UploadFailed("plugin `demo` missing `zpic_validate_config` export: not found".into());
    assert!(plugin_validation_result("demo", Err(missing)).is_ok());
    let other = ZpicError::UploadFailed("plugin `demo` call failed: trap".into());
    assert!(matches!(plugin_validation_result("demo", Err(other)), Err(ZpicError::UploadFailed(_))));
}

fn manifest(uploaders: Vec<PluginUploaderManifest>) -> PluginManifest {
    PluginManifest {
        id: "demo".into(),
        name: "Demo".into(),
        version: "0.1.0".into(),
        wasm_file: "plugin.wasm".into(),
        uploaders,
        transformers: Vec::new(),
        hooks: Vec::new(),
    }
}

fn demo_uploader() -> PluginUploaderManifest {
    PluginUploaderManifest {
        uploader_type: "demo-uploader".into(),
        display_name: None,
        picgo_aliases: vec!["demo-picgo".into()],
        fields: vec![UploaderFieldSchema {
            key: "token".into(),
            label: "API Token".into(),
            required: true,
            secret: true,
            default: None,
        }],
    }
}

#[test]
fn plugin_directory_yields_descriptors() {
    let ds = match plugin_descriptors("/plugins/demo", manifest(vec![demo_uploader()]), true) {
        Ok(ds) => ds,
        Err(_) => panic!("expected descriptors"),
    };
    assert_eq!(ds.len(), 1);
    assert_eq!(ds[0].kind, UploaderDescriptorKind::Plugin);
    assert_eq!(ds[0].uploader_type, "demo-uploader");
    assert_eq!(ds[0].display_name, "demo-uploader");
    assert_eq!(ds[0].aliases, vec!["demo-picgo".to_string()]);
    assert_eq!(ds[0].fields[0].key, "token");
}

#[test]
fn plugin_directory_refusals() {
    let (id, msg) = expect_err(plugin_descriptors("/plugins/demo", manifest(Vec::new()), true));
    assert_eq!(id.as_deref(), Some("demo"));
    assert_eq!(msg, "plugin does not declare any uploaders");
    let (id, msg) = expect_err(plugin_descriptors("/plugins/demo", manifest(vec![demo_uploader()]), false));
    assert_eq!(id.as_deref(), Some("demo"));
    assert_eq!(msg, "referenced WASM module not found: /plugins/demo/plugin.wasm");
    assert_eq!(plugin_wasm_path("/plugins/demo", &manifest(Vec::new())), "/plugins/demo/plugin.wasm");
}

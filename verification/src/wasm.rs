//! The protocol between zpic and a WebAssembly uploader plugin: the
//! request it is handed, the packed pointer/length it answers with, and
//! how its JSON answers become upload results or config verdicts. Running
//! the module itself happens outside the library.

use vstd::prelude::*;

use crate::error::{error_view, spec_error_message, ErrorKind, ZpicError};
use crate::fields::{copy_fields, Fields};
use crate::github::{base64_standard, spec_base64};
use crate::local::{path_join, spec_path_join};
use crate::registry::{
    plugin_uploader_descriptor, PluginManifest, PluginUploaderManifest, UploaderDescriptor,
    UploaderDescriptorKind,
};
use crate::text::{contains_seq, opt_view, own, push_str, str_contains, string_of};
use crate::upload::{md_image, md_image_string, UploadContext, UploadInput, UploadOutput};

verus! {

/// What a plugin's `zpic_upload` export is handed.
pub struct WasmUploadRequest {
    pub uploader_type: String,
    pub target_key: String,
    pub dry_run: bool,
    pub source_path: String,
    pub file_name: String,
    pub mime: String,
    pub size: u64,
    pub alt: Option<String>,
    /// The config's fields.
    pub config: Fields,
    /// The file's bytes, standard base64.
    pub bytes_base64: String,
}

/// What a plugin's `zpic_upload` export answers.
pub struct WasmUploadResponse {
    pub url: Option<String>,
    pub key: Option<String>,
    pub markdown: Option<String>,
    pub mime: Option<String>,
    pub size: Option<u64>,
    pub width: Option<u32>,
    pub height: Option<u32>,
    pub uploader: Option<String>,
    pub error: Option<String>,
}

/// What a plugin's `zpic_validate_config` export answers.
pub struct WasmConfigValidationResponse {
    pub ok: bool,
    pub error: Option<String>,
}

impl WasmUploadRequest {
    /// The request for uploading `input` under `ctx` with a config's fields.
    pub fn new(uploader_type: &str, config: &Fields, input: &UploadInput, ctx: &UploadContext) -> (r: Self)
        ensures
            r.uploader_type@ == uploader_type@,
            r.target_key == ctx.target_key,
            r.dry_run == ctx.dry_run,
            r.source_path == input.source_path,
            r.file_name == input.file_name,
            r.mime == input.mime,
            r.size == input.size,
            r.alt == input.alt,
            r.config@ == config@,
            r.bytes_base64@ == spec_base64(input.bytes@),
    {
        WasmUploadRequest {
            uploader_type: own(uploader_type),
            target_key: ctx.target_key.clone(),
            dry_run: ctx.dry_run,
            source_path: input.source_path.clone(),
            file_name: input.file_name.clone(),
            mime: input.mime.clone(),
            size: input.size,
            alt: input.alt.clone(),
            config: copy_fields(config),
            bytes_base64: base64_standard(input.bytes.as_slice()),
        }
    }
}

/// The pointer (low 32 bits) and length (high 32 bits) packed into a
/// plugin's 64-bit answer; neither may be negative as an `i32`.
pub open spec fn spec_unpack(packed: i64) -> Option<(int, int)> {
    let raw = packed as u64;
    let ptr = raw % 0x1_0000_0000;
    let len = raw / 0x1_0000_0000;
    if ptr < 0x8000_0000 && len < 0x8000_0000 {
        Some((ptr as int, len as int))
    } else {
        None
    }
}

/// Split a plugin's packed answer into pointer and length, as
/// `spec_unpack` states.
pub fn unpack_ptr_len(packed: i64) -> (r: Result<(i32, i32), ZpicError>)
    ensures
        match spec_unpack(packed) {
            Some((p, l)) => r matches Ok((rp, rl)) && rp as int == p && rl as int == l,
            None => r matches Err(e) && error_view(e) == (
                ErrorKind::UploadFailed,
                "plugin returned an invalid pointer/length pair"@,
            ),
        },
{
    let raw = packed as u64;
    let ptr: u64 = raw & 0xffff_ffff;
    let len: u64 = raw >> 32;
    assert(ptr == raw % 0x1_0000_0000) by (bit_vector)
        requires
            ptr == raw & 0xffff_ffff,
    ;
    assert(len == raw / 0x1_0000_0000) by (bit_vector)
        requires
            len == raw >> 32,
    ;
    if ptr < 0x8000_0000 && len < 0x8000_0000 {
        Ok((ptr as i32, len as i32))
    } else {
        Err(ZpicError::UploadFailed(own("plugin returned an invalid pointer/length pair")))
    }
}

/// The message for a plugin that answered an upload without a URL.
pub open spec fn missing_url_message(plugin_id: Seq<char>) -> Seq<char> {
    "plugin `"@ + plugin_id + "` did not return a URL"@
}

/// The value an optional answer field gives, else the fallback.
pub open spec fn or_else(o: Option<Seq<char>>, fallback: Seq<char>) -> Seq<char> {
    match o {
        Some(s) => s,
        None => fallback,
    }
}

fn text_or(o: Option<String>, fallback: &str) -> (r: String)
    ensures
        r@ == or_else(opt_view(o), fallback@),
{
    match o {
        Some(s) => s,
        None => own(fallback),
    }
}

/// The result of an upload from a plugin's answer: its error, when it
/// reports one; a failure when it gives no URL; else the output at its
/// URL, each field it leaves out taken from the request (key, MIME type,
/// size, uploader type) or rendered (`![file](url)` markdown).
pub fn plugin_upload_outcome(
    plugin_id: &str,
    uploader_type: &str,
    input: &UploadInput,
    ctx: &UploadContext,
    response: WasmUploadResponse,
) -> (r: Result<UploadOutput, ZpicError>)
    ensures
        match response.error {
            Some(e) => r matches Err(x) && error_view(x) == (ErrorKind::UploadFailed, e@),
            None => match response.url {
                None => r matches Err(x) && error_view(x) == (
                    ErrorKind::UploadFailed,
                    missing_url_message(plugin_id@),
                ),
                Some(u) => r matches Ok(o) && {
                    &&& o.source == input.source_path
                    &&& o.url == u
                    &&& o.key@ == or_else(opt_view(response.key), ctx.target_key@)
                    &&& o.markdown@ == or_else(opt_view(response.markdown), md_image(input.file_name@, u@))
                    &&& o.mime@ == or_else(opt_view(response.mime), input.mime@)
                    &&& o.size == match response.size {
                        Some(s) => s,
                        None => input.size,
                    }
                    &&& o.width == response.width
                    &&& o.height == response.height
                    &&& o.uploader@ == or_else(opt_view(response.uploader), uploader_type@)
                },
            },
        },
{
    if let Some(e) = response.error {
        return Err(ZpicError::UploadFailed(e));
    }
    let url = match response.url {
        Some(u) => u,
        None => {
            let mut m: Vec<char> = Vec::new();
            push_str(&mut m, "plugin `");
            push_str(&mut m, plugin_id);
            push_str(&mut m, "` did not return a URL");
            return Err(ZpicError::UploadFailed(string_of(&m)));
        },
    };
    let key = text_or(response.key, ctx.target_key.as_str());
    let markdown = match response.markdown {
        Some(m) => m,
        None => md_image_string(input.file_name.as_str(), url.as_str()),
    };
    let mime = text_or(response.mime, input.mime.as_str());
    let size = match response.size {
        Some(s) => s,
        None => input.size,
    };
    let uploader = text_or(response.uploader, uploader_type);
    Ok(UploadOutput {
        source: input.source_path.clone(),
        url,
        key,
        markdown,
        mime,
        size,
        width: response.width,
        height: response.height,
        uploader,
    })
}

/// The message for a plugin that refused a config without saying why.
pub open spec fn rejected_message(plugin_id: Seq<char>) -> Seq<char> {
    "plugin `"@ + plugin_id + "` rejected the config"@
}

/// A plugin's verdict on a config: accepted, or invalid with its reason.
pub fn plugin_validation_outcome(plugin_id: &str, response: WasmConfigValidationResponse) -> (r: Result<(), ZpicError>)
    ensures
        response.ok ==> r is Ok,
        !response.ok ==> (r matches Err(e) && error_view(e) == (
            ErrorKind::ConfigInvalid,
            or_else(opt_view(response.error), rejected_message(plugin_id@)),
        )),
{
    if response.ok {
        Ok(())
    } else {
        let reason = match response.error {
            Some(e) => e,
            None => {
                let mut m: Vec<char> = Vec::new();
                push_str(&mut m, "plugin `");
                push_str(&mut m, plugin_id);
                push_str(&mut m, "` rejected the config");
                string_of(&m)
            },
        };
        Err(ZpicError::ConfigInvalid(reason))
    }
}

/// Validating a config through a plugin: its verdict when the call
/// answered; a plugin without a validation export accepts every config;
/// any other failure of the call is reported as it is.
pub fn plugin_validation_result(
    plugin_id: &str,
    call: Result<WasmConfigValidationResponse, ZpicError>,
) -> (r: Result<(), ZpicError>)
    ensures
        match call {
            Ok(resp) => (resp.ok ==> r is Ok) && (!resp.ok ==> (r matches Err(e) && error_view(e) == (
                ErrorKind::ConfigInvalid,
                or_else(opt_view(resp.error), rejected_message(plugin_id@)),
            ))),
            Err(e) => if contains_seq(spec_error_message(e), "missing `zpic_validate_config`"@) {
                r is Ok
            } else {
                r == Err::<(), ZpicError>(e)
            },
        },
{
    match call {
        Ok(resp) => plugin_validation_outcome(plugin_id, resp),
        Err(e) => {
            let msg = e.message();
            if str_contains(msg.as_str(), "missing `zpic_validate_config`") {
                Ok(())
            } else {
                Err(e)
            }
        },
    }
}

/// Where a plugin directory's WASM module lives.
pub fn plugin_wasm_path(plugin_dir: &str, manifest: &PluginManifest) -> (r: String)
    ensures
        r@ == spec_path_join(plugin_dir@, manifest.wasm_file@),
{
    path_join(plugin_dir, manifest.wasm_file.as_str())
}

/// The descriptor a plugin uploader declaration gives.
pub open spec fn declared(d: UploaderDescriptor, u: PluginUploaderManifest) -> bool {
    &&& d.kind == UploaderDescriptorKind::Plugin
    &&& d.uploader_type@ == u.uploader_type@
    &&& d.display_name@ == or_else(opt_view(u.display_name), u.uploader_type@)
    &&& d.aliases == u.picgo_aliases
    &&& d.fields == u.fields
}

/// The uploaders a plugin directory provides: refused (with the plugin's
/// id) when the manifest declares none or its WASM module is missing;
/// else one plugin descriptor per declared uploader, in order.
pub fn plugin_descriptors(plugin_dir: &str, manifest: PluginManifest, wasm_exists: bool) -> (r: Result<
    Vec<UploaderDescriptor>,
    (Option<String>, String),
>)
    ensures
        manifest.uploaders@.len() == 0 ==> (r matches Err((id, m)) && opt_view(id) == Some(manifest.id@)
            && m@ == "plugin does not declare any uploaders"@),
        manifest.uploaders@.len() > 0 && !wasm_exists ==> (r matches Err((id, m)) && opt_view(id) == Some(
            manifest.id@,
        ) && m@ == "referenced WASM module not found: "@ + spec_path_join(plugin_dir@, manifest.wasm_file@)),
        manifest.uploaders@.len() > 0 && wasm_exists ==> (r matches Ok(v) && v@.len() == manifest.uploaders@.len()
            && forall|i: int| 0 <= i < v@.len() ==> #[trigger] declared(v@[i], manifest.uploaders@[i])),
{
    if manifest.uploaders.len() == 0 {
        return Err((Some(manifest.id), own("plugin does not declare any uploaders")));
    }
    if !wasm_exists {
        let path = plugin_wasm_path(plugin_dir, &manifest);
        let mut m: Vec<char> = Vec::new();
        push_str(&mut m, "referenced WASM module not found: ");
        push_str(&mut m, path.as_str());
        return Err((Some(manifest.id), string_of(&m)));
    }
    let ghost all = manifest.uploaders@;
    let mut ups = manifest.uploaders;
    let n = ups.len();
    let mut out: Vec<UploaderDescriptor> = Vec::new();
    let mut i: usize = 0;
    while i < n
        invariant
            n == all.len(),
            i <= n,
            ups@ == all.subrange(i as int, n as int),
            out@.len() == i,
            forall|j: int| 0 <= j < i ==> #[trigger] declared(out@[j], all[j]),
        decreases n - i,
    {
        let u = ups.remove(0);
        assert(u == all[i as int]);
        let display = own(u.display_name());
        let d = plugin_uploader_descriptor(u.uploader_type.as_str(), display.as_str(), u.picgo_aliases, u.fields);
        out.push(d);
        proof {
            assert(all.subrange(i + 1, n as int) =~= ups@);
        }
        i = i + 1;
    }
    Ok(out)
}

} // verus!

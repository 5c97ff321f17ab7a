//! The `read_image` tool: reads an image file and loads it into the model's vision
//! context.
//!
//! The result of a call is a JSON object that holds the image as a
//! `data:{mime};base64,...` URI. The image also goes into the session's vision cache.

use crate::base64_codec::{base64_decoded, base64_encoded, base64_len, encode};
use crate::error::Error;
use crate::file_name::{
    extension_of, extension_of_name, file_in_directory, host_extension, host_extension_of,
    law_files_keep_their_extension, maybe_prefixed, optional_text, platform_separators, Separators,
};
use crate::json::{
    from_bool, from_list, from_members, from_text, from_unsigned, insert, json, no_members, text_member,
    text_of_member, Json,
};
use crate::session_read::{ActionView, ReadView, SessionRead};
use crate::text::{ascii_lower, ascii_lowercase, same_text, to_ascii_lowercase};
use std::sync::Arc;
use vstd::prelude::*;

verus! {

/// The turns for which an image stays in the vision cache. The count goes down at
/// the start of the next turn, so five turns of follow-up see the image.
pub const VISION_CACHE_TTL: u32 = 6;

/// The media type of an image file with the given extension, in lower case.
pub open spec fn mime_of_lowercase(ext: Seq<char>) -> Option<Seq<char>> {
    if ext == "png"@ {
        Some("image/png"@)
    } else if ext == "jpg"@ || ext == "jpeg"@ {
        Some("image/jpeg"@)
    } else if ext == "gif"@ {
        Some("image/gif"@)
    } else if ext == "webp"@ {
        Some("image/webp"@)
    } else {
        None
    }
}

/// The media type of an image file with the given extension, in any ASCII case.
pub open spec fn mime_of(ext: Seq<char>) -> Option<Seq<char>> {
    mime_of_lowercase(ascii_lowercase(ext))
}

/// The media type of an image file, by its extension.
pub fn mime_from_extension(ext: &str) -> (mime: Option<&'static str>)
    ensures
        match mime {
            Some(mime) => mime_of(ext@) == Some(mime@),
            None => mime_of(ext@) is None,
        },
{
    let lower = to_ascii_lowercase(ext);
    let lower = lower.as_str();
    if same_text(lower, "png") {
        Some("image/png")
    } else if same_text(lower, "jpg") || same_text(lower, "jpeg") {
        Some("image/jpeg")
    } else if same_text(lower, "gif") {
        Some("image/gif")
    } else if same_text(lower, "webp") {
        Some("image/webp")
    } else {
        None
    }
}

/// A call of the tool whose parameters are in order.
pub struct ImageRequest {
    pub path: String,
    pub session_key: String,
    pub mime: &'static str,
}

/// A call of the tool whose parameters are in order, as plain values.
pub struct RequestView {
    pub path: Seq<char>,
    pub session_key: Seq<char>,
    pub mime: Seq<char>,
}

impl View for ImageRequest {
    type V = RequestView;

    open spec fn view(&self) -> RequestView {
        RequestView { path: self.path@, session_key: self.session_key@, mime: self.mime@ }
    }
}

/// The request that a path, the extension of that path and a session key make, or
/// the text of the refusal. Without a session key the main session is meant.
pub open spec fn requested(
    path: Option<Seq<char>>,
    ext: Option<Seq<char>>,
    session_key: Option<Seq<char>>,
) -> Result<RequestView, Seq<char>> {
    match path {
        None => Err("missing 'path' parameter"@),
        Some(path) => match ext {
            None => Err("file has no extension — supported: png, jpg, jpeg, gif, webp"@),
            Some(ext) => match mime_of(ext) {
                None => Err(
                    "unsupported image format '."@ + ext
                        + "' — supported: png, jpg, jpeg, gif, webp"@,
                ),
                Some(mime) => Ok(
                    RequestView {
                        path,
                        session_key: match session_key {
                            Some(key) => key,
                            None => "main"@,
                        },
                        mime,
                    },
                ),
            },
        },
    }
}

/// Makes a request of the parameters of a call and of the extension of its path.
pub fn make_request(path: Option<&str>, ext: Option<&str>, session_key: Option<&str>) -> (request:
    Result<ImageRequest, Error>)
    ensures
        ({
            let expected = requested(
                optional_text(path),
                optional_text(ext),
                optional_text(session_key),
            );
            match request {
                Ok(request) => expected == Ok::<RequestView, Seq<char>>(request@),
                Err(error) => expected == Err::<RequestView, Seq<char>>(error@),
            }
        }),
{
    let path: &str = match path {
        Some(path) => path,
        None => {
            return Err(Error::message("missing 'path' parameter".to_owned()));
        },
    };
    let ext: &str = match ext {
        Some(ext) => ext,
        None => {
            return Err(
                Error::message(
                    "file has no extension — supported: png, jpg, jpeg, gif, webp".to_owned(),
                ),
            );
        },
    };
    let mime: &'static str = match mime_from_extension(ext) {
        Some(mime) => mime,
        None => {
            let mut text = String::new();
            text.append("unsupported image format '.");
            text.append(ext);
            text.append("' — supported: png, jpg, jpeg, gif, webp");
            assert(text@ =~= "unsupported image format '."@ + ext@
                + "' — supported: png, jpg, jpeg, gif, webp"@);
            return Err(Error::message(text));
        },
    };
    let session_key: &str = match session_key {
        Some(key) => key,
        None => "main",
    };
    Ok(ImageRequest { path: path.to_owned(), session_key: session_key.to_owned(), mime })
}

/// An image for the vision cache of a session.
pub struct CachedImage {
    pub session_key: String,
    pub mime: String,
    pub data: String,
    pub ttl: u32,
}

/// What a successful call leaves behind: an image for the vision cache, and the
/// result for the caller.
pub struct ImageReply {
    pub cached: CachedImage,
    pub result: serde_json::Value,
}

/// The `data:` URI of an image, given its base64 text.
pub open spec fn data_uri(mime: Seq<char>, data: Seq<char>) -> Seq<char> {
    "data:"@ + mime + ";base64,"@ + data
}

/// The result of a successful call.
pub open spec fn result_json(request: RequestView, size: u64, data: Seq<char>) -> Json {
    Json::Object(
        map![
            "path"@ => Json::Text(request.path),
            "mime"@ => Json::Text(request.mime),
            "size_bytes"@ => Json::Unsigned(size),
            "image"@ => Json::Text(data_uri(request.mime, data)),
            "loaded"@ => Json::Bool(true),
            "note"@ => Json::Text(
                "Image is now in your vision context for this turn — describe what you see directly in your reply."@,
            ),
        ],
    )
}

/// Whether a reply is the one to a request, given the size and the base64 text of the
/// image.
pub open spec fn replies(reply: ImageReply, request: RequestView, size: u64, data: Seq<char>) -> bool {
    &&& reply.cached.session_key@ == request.session_key
    &&& reply.cached.mime@ == request.mime
    &&& reply.cached.data@ == data
    &&& reply.cached.ttl == VISION_CACHE_TTL
    &&& json(reply.result) == result_json(request, size, data)
}

/// The reply to a request, given the size and the base64 text of the image.
pub fn make_reply(request: &ImageRequest, size: u64, data: String) -> (reply: ImageReply)
    ensures
        reply.cached.session_key@ == request@.session_key,
        reply.cached.mime@ == request@.mime,
        reply.cached.data@ == data@,
        reply.cached.ttl == VISION_CACHE_TTL,
        json(reply.result) == result_json(request@, size, data@),
        replies(reply, request@, size, data@),
{
    let mut uri = String::new();
    uri.append("data:");
    uri.append(request.mime);
    uri.append(";base64,");
    uri.append(data.as_str());
    assert(uri@ =~= data_uri(request@.mime, data@));
    let mut members = no_members();
    insert(&mut members, "path", from_text(request.path.as_str()));
    insert(&mut members, "mime", from_text(request.mime));
    insert(&mut members, "size_bytes", from_unsigned(size));
    insert(&mut members, "image", from_text(uri.as_str()));
    insert(&mut members, "loaded", from_bool(true));
    insert(
        &mut members,
        "note",
        from_text(
            "Image is now in your vision context for this turn — describe what you see directly in your reply.",
        ),
    );
    let result = from_members(members);
    ImageReply {
        cached: CachedImage {
            session_key: request.session_key.clone(),
            mime: request.mime.to_owned(),
            data,
            ttl: VISION_CACHE_TTL,
        },
        result,
    }
}

/// Finishes a call with how the read of the file ended.
pub fn complete(request: &ImageRequest, read: Result<Vec<u8>, Error>) -> (reply: Result<
    ImageReply,
    Error,
>)
    requires
        read matches Ok(bytes) ==> base64_len(bytes@.len()) <= isize::MAX,
    ensures
        match read {
            Ok(bytes) => {
                &&& reply matches Ok(reply)
                &&& reply.cached.session_key@ == request@.session_key
                &&& reply.cached.mime@ == request@.mime
                &&& reply.cached.ttl == VISION_CACHE_TTL
                &&& reply.cached.data@ == base64_encoded(bytes@)
                &&& base64_decoded(reply.cached.data@) == Ok::<Seq<u8>, Seq<char>>(bytes@)
                &&& json(reply.result) == result_json(
                    request@,
                    bytes@.len() as u64,
                    reply.cached.data@,
                )
                &&& replies(reply, request@, bytes@.len() as u64, base64_encoded(bytes@))
            },
            Err(error) => reply == Err::<ImageReply, Error>(error),
        },
{
    match read {
        Ok(bytes) => {
            let size: u64 = bytes.len() as u64;
            let data = encode(bytes.as_slice());
            Ok(make_reply(request, size, data))
        },
        Err(error) => Err(error),
    }
}

/// The JSON schema of the tool's parameters.
pub open spec fn schema_json() -> Json {
    Json::Object(
        map![
            "type"@ => Json::Text("object"@),
            "required"@ => Json::List(seq![Json::Text("path"@)]),
            "properties"@ => Json::Object(
                map![
                    "path"@ => Json::Object(
                        map![
                            "type"@ => Json::Text("string"@),
                            "description"@ => Json::Text(
                                "Absolute file path to the image (e.g. /tmp/screenshot.png)"@,
                            ),
                        ],
                    ),
                ],
            ),
        ],
    )
}

/// Whether a request, or a refusal, is what a path and a session key make on a host
/// with the given separators.
pub open spec fn requested_on_host(
    seps: Separators,
    path: Option<Seq<char>>,
    session_key: Option<Seq<char>>,
    request: Result<RequestView, Seq<char>>,
) -> bool {
    match path {
        None => request == requested(None, None, session_key),
        Some(text) => exists|ext: Option<Seq<char>>| #[trigger]
            host_extension_of(text, seps, ext) && request == requested(path, ext, session_key),
    }
}

/// Whether a call that was started, or refused, is the one that its parameters make
/// on a host with the given separators, with a router to sandboxes or without.
pub open spec fn call_started(
    seps: Separators,
    has_router: bool,
    params: Json,
    started: Result<(RequestView, ReadView), Seq<char>>,
) -> bool {
    let path = text_member(params, "path"@);
    let session_key = text_member(params, "_session_key"@);
    match started {
        Ok((request, read)) => {
            &&& requested_on_host(seps, path, session_key, Ok(request))
            &&& read == ReadView::started(has_router, request.session_key, request.path)
        },
        Err(text) => requested_on_host(seps, path, session_key, Err(text)),
    }
}

/// The tool. It carries the router to the sandboxes of the sessions, if there is one,
/// and knows how the host separates the components of a path.
pub struct ReadImageTool<R> {
    sandbox_router: Option<Arc<R>>,
    separators: Separators,
}

impl<R> Default for ReadImageTool<R> {
    /// A tool without a router.
    fn default() -> (tool: Self)
        ensures
            tool.router() is None,
    {
        ReadImageTool { sandbox_router: None, separators: platform_separators() }
    }
}

impl<R> ReadImageTool<R> {
    /// The router to the sandboxes.
    pub closed spec fn router(self) -> Option<Arc<R>> {
        self.sandbox_router
    }

    /// The characters that separate the components of a path on the host.
    pub closed spec fn seps(self) -> Separators {
        self.separators
    }

    /// The characters that separate the components of a path on the host.
    pub fn path_separators(&self) -> (seps: Separators)
        ensures
            seps == self.seps(),
    {
        self.separators
    }

    /// A tool without a router: every file is read on the host. Which characters
    /// separate paths there is the platform's to say, so nothing is stated of it.
    #[must_use]
    pub fn new() -> (tool: Self)
        ensures
            tool.router() is None,
    {
        ReadImageTool { sandbox_router: None, separators: platform_separators() }
    }

    /// The tool with a router to the sandboxes of the sessions.
    pub fn with_sandbox_router(self, router: Arc<R>) -> (tool: Self)
        ensures
            tool.router() == Some(router),
            tool.seps() == self.seps(),
    {
        let mut tool = self;
        tool.sandbox_router = Some(router);
        tool
    }

    /// The router to the sandboxes.
    pub fn sandbox_router(&self) -> (router: Option<&Arc<R>>)
        ensures
            match router {
                Some(router) => self.router() == Some(*router),
                None => self.router() is None,
            },
    {
        self.sandbox_router.as_ref()
    }

    /// The name under which the tool is called.
    pub fn name(&self) -> (name: &'static str)
        ensures
            name@ == "read_image"@,
    {
        "read_image"
    }

    /// What the model is told of the tool.
    pub fn description(&self) -> (text: &'static str)
        ensures
            text@
                == "Read a local image file and load it into your vision context for THIS response. The image becomes visible to you immediately within the same turn — describe what you see directly in your reply, do NOT say 'I'll describe it next turn' or wait for follow-up. Use when the user references an image by file path (screenshot, photo, etc.). Do NOT use for sending images to a chat channel — that's `send_image`. Supported: PNG, JPEG, GIF, WebP. Max 20 MB. Note: the image is only visible during this turn; if the user asks about it again later, call `read_image` again."@,
    {
        "Read a local image file and load it into your vision context for THIS response. The image becomes visible to you immediately within the same turn — describe what you see directly in your reply, do NOT say 'I'll describe it next turn' or wait for follow-up. Use when the user references an image by file path (screenshot, photo, etc.). Do NOT use for sending images to a chat channel — that's `send_image`. Supported: PNG, JPEG, GIF, WebP. Max 20 MB. Note: the image is only visible during this turn; if the user asks about it again later, call `read_image` again."
    }

    /// The JSON schema of the tool's parameters.
    pub fn parameters_schema(&self) -> (schema: serde_json::Value)
        ensures
            json(schema) == schema_json(),
    {
        let mut path = no_members();
        insert(&mut path, "type", from_text("string"));
        insert(
            &mut path,
            "description",
            from_text("Absolute file path to the image (e.g. /tmp/screenshot.png)"),
        );
        let mut properties = no_members();
        insert(&mut properties, "path", from_members(path));
        let required = vec![from_text("path")];
        assert(required@.map_values(|item: serde_json::Value| json(item)) =~= seq![
            Json::Text("path"@),
        ]);
        let mut schema = no_members();
        insert(&mut schema, "type", from_text("object"));
        insert(&mut schema, "required", from_list(required));
        insert(&mut schema, "properties", from_members(properties));
        from_members(schema)
    }

    /// Starts to read the file at a path for a session.
    pub fn read_file_for_session(&self, session_key: &str, path: &str) -> (read: SessionRead)
        ensures
            read@ == ReadView::started(self.router() is Some, session_key@, path@),
    {
        SessionRead::start(self.sandbox_router.is_some(), session_key, path)
    }

    /// Starts a call of the tool with the given parameters. A call that is refused
    /// here has touched no file.
    pub fn execute(&self, params: &serde_json::Value) -> (started: Result<
        (ImageRequest, SessionRead),
        Error,
    >)
        ensures
            ({
                let request = match started {
                    Ok((request, _)) => Ok(request@),
                    Err(error) => Err(error@),
                };
                &&& requested_on_host(
                    self.seps(),
                    text_member(json(*params), "path"@),
                    text_member(json(*params), "_session_key"@),
                    request,
                )
                &&& started matches Ok((request, read)) ==> read@ == ReadView::started(
                    self.router() is Some,
                    request@.session_key,
                    request@.path,
                )
            }),
            call_started(
                self.seps(),
                self.router() is Some,
                json(*params),
                match started {
                    Ok((request, read)) => Ok((request@, read@)),
                    Err(error) => Err(error@),
                },
            ),
    {
        let path = text_of_member(params, "path");
        let session_key = text_of_member(params, "_session_key");
        let ext = match path {
            Some(path) => host_extension(path, self.separators),
            None => None,
        };
        assert(path matches Some(path) ==> host_extension_of(
            path@,
            self.separators,
            optional_text(ext),
        ));
        match make_request(path, ext, session_key) {
            Ok(request) => {
                let read = self.read_file_for_session(
                    request.session_key.as_str(),
                    request.path.as_str(),
                );
                Ok((request, read))
            },
            Err(error) => Err(error),
        }
    }
}

/// The case of an extension does not matter.
pub proof fn law_case_of_extension_does_not_matter(ext: Seq<char>)
    ensures
        mime_of(ascii_lowercase(ext)) == mime_of(ext),
{
    let lower = ascii_lowercase(ext);
    assert forall|i: int| 0 <= i < ext.len() implies ascii_lowercase(lower)[i] == lower[i] by {
        assert(ascii_lower(ascii_lower(ext[i])) == ascii_lower(ext[i]));
    }
    assert(ascii_lowercase(lower) =~= lower);
}

/// A call gets as far as reading a file only if its path has the extension of an
/// image, and the media type is the one of that extension.
pub proof fn law_only_images_are_read(
    seps: Separators,
    path: Option<Seq<char>>,
    session_key: Option<Seq<char>>,
    request: RequestView,
)
    requires
        requested_on_host(seps, path, session_key, Ok(request)),
    ensures
        path == Some(request.path),
        exists|ext: Seq<char>|
            host_extension_of(request.path, seps, Some(ext)) && #[trigger] mime_of(ext) == Some(
                request.mime,
            ),
{
    let ext = choose|ext: Option<Seq<char>>| #[trigger]
        host_extension_of(path->0, seps, ext) && Ok::<RequestView, Seq<char>>(request)
            == requested(path, ext, session_key);
    assert(mime_of(ext->0) == Some(request.mime));
}

/// What becomes of a call is fixed by its parameters, on hosts where backslashes
/// do not separate and, on the others, for every path that cannot have a prefix. It is
/// refused exactly if there is no path, no extension or no image of that extension.
pub proof fn law_parameters_decide(
    seps: Separators,
    path: Option<Seq<char>>,
    session_key: Option<Seq<char>>,
    request: Result<RequestView, Seq<char>>,
)
    requires
        requested_on_host(seps, path, session_key, request),
        seps.backslash && path is Some ==> !maybe_prefixed(path->0),
    ensures
        path matches Some(text) ==> request == requested(
            path,
            extension_of(text, seps),
            session_key,
        ),
        request is Err <==> match path {
            None => true,
            Some(text) => match extension_of(text, seps) {
                None => true,
                Some(ext) => mime_of(ext) is None,
            },
        },
{
}

/// An image in a directory is accepted on every host, with a drive before the
/// directory and without one, and its media type is the one of its extension. Any
/// other file with an extension is refused as unsupported.
pub proof fn law_images_in_directories_are_read(
    seps: Separators,
    dir: Seq<char>,
    name: Seq<char>,
    session_key: Option<Seq<char>>,
    request: Result<RequestView, Seq<char>>,
)
    requires
        file_in_directory(dir, name),
        requested_on_host(seps, Some(dir + name), session_key, request),
    ensures
        request == requested(Some(dir + name), extension_of_name(name), session_key),
        request is Ok <==> mime_of(extension_of_name(name)->0) is Some,
{
    let ext = choose|ext: Option<Seq<char>>| #[trigger]
        host_extension_of(dir + name, seps, ext) && request == requested(
            Some(dir + name),
            ext,
            session_key,
        );
    law_files_keep_their_extension(dir, name, seps, ext);
}

/// The result of a call holds the path, the media type and the image as a `data:`
/// URI of that type.
pub proof fn law_result_holds_the_image(request: RequestView, size: u64, data: Seq<char>)
    ensures
        ({
            let result = result_json(request, size, data);
            &&& text_member(result, "path"@) == Some(request.path)
            &&& text_member(result, "mime"@) == Some(request.mime)
            &&& text_member(result, "image"@) == Some(data_uri(request.mime, data))
            &&& result->Object_0["size_bytes"@] == Json::Unsigned(size)
            &&& result->Object_0["loaded"@] == Json::Bool(true)
        }),
{
    reveal_strlit("path");
    reveal_strlit("mime");
    reveal_strlit("size_bytes");
    reveal_strlit("image");
    reveal_strlit("loaded");
    reveal_strlit("note");
    assert("path"@[0] == 'p' && "mime"@[0] == 'm' && "note"@[0] == 'n');
    assert("path"@.len() == 4 && "mime"@.len() == 4 && "note"@.len() == 4);
    assert("size_bytes"@.len() == 10 && "image"@.len() == 5 && "loaded"@.len() == 6);
}

/// The image in the result of a call is the file that was read: what follows the
/// media type in the `data:` URI decodes to the bytes, where the base64 text does.
pub proof fn law_data_uri_decodes_to_the_file(mime: Seq<char>, data: Seq<char>, bytes: Seq<u8>)
    requires
        base64_decoded(data) == Ok::<Seq<u8>, Seq<char>>(bytes),
    ensures
        ({
            let head = "data:"@ + mime + ";base64,"@;
            let uri = data_uri(mime, data);
            &&& head.is_prefix_of(uri)
            &&& base64_decoded(uri.skip(head.len() as int)) == Ok::<Seq<u8>, Seq<char>>(bytes)
        }),
{
    let head = "data:"@ + mime + ";base64,"@;
    assert(data_uri(mime, data) =~= head + data);
    assert((head + data).skip(head.len() as int) =~= data);
}

/// Whether a text is a word in lower case, except that its letters from `A` to `Z`
/// stand for those from `a` to `z`.
pub open spec fn same_but_for_case(text: Seq<char>, word: Seq<char>) -> bool {
    &&& text.len() == word.len()
    &&& forall|i: int|
        0 <= i < text.len() ==> #[trigger] text[i] == word[i] || ('A' <= text[i] <= 'Z' && text[i] as int
            + 32 == word[i] as int)
}

proof fn lemma_same_but_for_case(text: Seq<char>, word: Seq<char>)
    requires
        forall|i: int| 0 <= i < word.len() ==> 'a' <= #[trigger] word[i] <= 'z',
    ensures
        same_but_for_case(text, word) <==> ascii_lowercase(text) == word,
{
    let lower = ascii_lowercase(text);
    if same_but_for_case(text, word) {
        assert forall|i: int| 0 <= i < text.len() implies lower[i] == word[i] by {
            assert('a' <= word[i] <= 'z');
            assert(text[i] == word[i] || ('A' <= text[i] <= 'Z' && text[i] as int + 32 == word[i] as int));
        }
        assert(lower =~= word);
    }
    if lower == word {
        assert forall|i: int| 0 <= i < text.len() implies #[trigger] text[i] == word[i] || ('A' <= text[i]
            <= 'Z' && text[i] as int + 32 == word[i] as int) by {
            assert(lower[i] == word[i]);
        }
    }
}

/// PNG, JPEG, GIF and WebP files are supported, by the extensions `png`, `jpg`,
/// `jpeg`, `gif` and `webp` in any ASCII case, each with its own media type. Every
/// other extension has no media type.
pub proof fn law_supported_formats(ext: Seq<char>, mime: Seq<char>)
    ensures
        mime_of(ext) == Some(mime) <==> {
            ||| same_but_for_case(ext, "png"@) && mime == "image/png"@
            ||| same_but_for_case(ext, "jpg"@) && mime == "image/jpeg"@
            ||| same_but_for_case(ext, "jpeg"@) && mime == "image/jpeg"@
            ||| same_but_for_case(ext, "gif"@) && mime == "image/gif"@
            ||| same_but_for_case(ext, "webp"@) && mime == "image/webp"@
        },
        mime_of(ext) is Some <==> {
            ||| same_but_for_case(ext, "png"@)
            ||| same_but_for_case(ext, "jpg"@)
            ||| same_but_for_case(ext, "jpeg"@)
            ||| same_but_for_case(ext, "gif"@)
            ||| same_but_for_case(ext, "webp"@)
        },
{
    reveal_strlit("png");
    reveal_strlit("jpg");
    reveal_strlit("jpeg");
    reveal_strlit("gif");
    reveal_strlit("webp");
    lemma_same_but_for_case(ext, "png"@);
    lemma_same_but_for_case(ext, "jpg"@);
    lemma_same_but_for_case(ext, "jpeg"@);
    lemma_same_but_for_case(ext, "gif"@);
    lemma_same_but_for_case(ext, "webp"@);
    assert("png"@[0] == 'p' && "jpg"@[0] == 'j' && "gif"@[0] == 'g');
    assert("jpeg"@[0] == 'j' && "webp"@[0] == 'w');
    assert("png"@.len() == 3 && "jpg"@.len() == 3 && "gif"@.len() == 3);
    assert("jpeg"@.len() == 4 && "webp"@.len() == 4);
}

/// A call is accepted exactly if it has a path whose extension has a media type. The
/// request then holds that path, that media type and the session key of the call,
/// whatever it is, or that of the main session. A refusal says what is missing.
pub proof fn law_request_is_that_of_the_call(
    path: Seq<char>,
    ext: Seq<char>,
    key: Seq<char>,
    other_ext: Option<Seq<char>>,
    other_key: Option<Seq<char>>,
)
    ensures
        requested(None, other_ext, other_key) == Err::<RequestView, Seq<char>>(
            "missing 'path' parameter"@,
        ),
        requested(Some(path), None, other_key) == Err::<RequestView, Seq<char>>(
            "file has no extension — supported: png, jpg, jpeg, gif, webp"@,
        ),
        mime_of(ext) is None ==> requested(Some(path), Some(ext), other_key) == Err::<
            RequestView,
            Seq<char>,
        >("unsupported image format '."@ + ext + "' — supported: png, jpg, jpeg, gif, webp"@),
        mime_of(ext) matches Some(mime) ==> {
            &&& requested(Some(path), Some(ext), Some(key)) == Ok::<RequestView, Seq<char>>(
                RequestView { path, session_key: key, mime },
            )
            &&& requested(Some(path), Some(ext), None) == Ok::<RequestView, Seq<char>>(
                RequestView { path, session_key: "main"@, mime },
            )
        },
{
}

/// A call is made of the texts `path` and `_session_key` of its parameters and of
/// nothing else. Without a path it is refused. Where it is accepted, the extension of
/// the path is that of a supported image, and the read is for the path and the
/// session of the call: it asks first whether the session is sandboxed if there is a
/// router, and else asks the host about the path.
pub proof fn law_call_is_made_of_its_parameters(
    seps: Separators,
    has_router: bool,
    params: Json,
    started: Result<(RequestView, ReadView), Seq<char>>,
)
    requires
        call_started(seps, has_router, params, started),
    ensures
        text_member(params, "path"@) is None ==> started == Err::<(RequestView, ReadView), Seq<char>>(
            "missing 'path' parameter"@,
        ),
        started matches Ok((request, read)) ==> {
            &&& text_member(params, "path"@) == Some(request.path)
            &&& text_member(params, "_session_key"@) matches Some(key) ==> request.session_key == key
            &&& text_member(params, "_session_key"@) is None ==> request.session_key == "main"@
            &&& exists|ext: Seq<char>|
                host_extension_of(request.path, seps, Some(ext)) && #[trigger] mime_of(ext) == Some(
                    request.mime,
                )
            &&& read.path == request.path
            &&& read.session_key == request.session_key
            &&& has_router ==> read.action() == (ActionView::AskSandboxed {
                session_key: request.session_key,
            })
            &&& !has_router ==> read.action() == (ActionView::HostMetadata { path: request.path })
        },
        started is Err && text_member(params, "path"@) is Some ==> exists|ext: Option<Seq<char>>|
            {
                &&& #[trigger] host_extension_of(text_member(params, "path"@)->0, seps, ext)
                &&& ext is None || mime_of(ext->0) is None
            },
{
    let path = text_member(params, "path"@);
    let key = text_member(params, "_session_key"@);
    let request: Result<RequestView, Seq<char>> = match started {
        Ok((request, _)) => Ok(request),
        Err(text) => Err(text),
    };
    if path is Some {
        let ext = choose|ext: Option<Seq<char>>| #[trigger]
            host_extension_of(path->0, seps, ext) && request == requested(path, ext, key);
        if started is Ok {
            assert(mime_of(ext->0) == Some(started->Ok_0.0.mime));
        }
    }
}

/// A reply puts the image into the vision cache of the session of the call, under
/// its media type and for six turns, and gives the caller a result with six members:
/// the path, the media type, the size, the image as a `data:` URI with the cached
/// text, that it is loaded, and a note.
pub proof fn law_reply_delivers_the_image(
    reply: ImageReply,
    request: RequestView,
    size: u64,
    data: Seq<char>,
)
    requires
        replies(reply, request, size, data),
    ensures
        reply.cached.session_key@ == request.session_key,
        reply.cached.mime@ == request.mime,
        reply.cached.data@ == data,
        reply.cached.ttl == 6,
        ({
            let result = json(reply.result);
            &&& text_member(result, "path"@) == Some(request.path)
            &&& text_member(result, "mime"@) == Some(request.mime)
            &&& text_member(result, "image"@) == Some(
                "data:"@ + request.mime + ";base64,"@ + reply.cached.data@,
            )
            &&& text_member(result, "note"@) == Some(
                "Image is now in your vision context for this turn — describe what you see directly in your reply."@,
            )
            &&& result->Object_0["size_bytes"@] == Json::Unsigned(size)
            &&& result->Object_0["loaded"@] == Json::Bool(true)
            &&& forall|key: Seq<char>| #[trigger]
                result->Object_0.contains_key(key) <==> {
                    ||| key == "path"@
                    ||| key == "mime"@
                    ||| key == "size_bytes"@
                    ||| key == "image"@
                    ||| key == "loaded"@
                    ||| key == "note"@
                }
        }),
{
    law_result_holds_the_image(request, size, data);
    reveal_strlit("path");
    reveal_strlit("mime");
    reveal_strlit("size_bytes");
    reveal_strlit("image");
    reveal_strlit("loaded");
    reveal_strlit("note");
}


/// A request says all that it holds.
pub proof fn law_request_is_taken_over(request: ImageRequest)
    ensures
        request@.path == request.path@,
        request@.session_key == request.session_key@,
        request@.mime == request.mime@,
{
}


} // verus!

//! Encoding requests: the files that a request carries, and the key of their audio.

use crate::digest::{
    absorbed, digest_new, digest_update, finish_hex, hex, is_hex_digest, sha256, Digest256,
};
use crate::error::{client_error, EncodeError};
use crate::headers::{header_entries, header_text, string_view, text_under};
use crate::options::EncodeQuality;
use crate::protocol::{header_names_are_distinct, CONTENT_TYPE};
use crate::request::{
    filename_of, has_query, is_absent, is_first, query_options, request_encode_options,
    request_filename, the_query_names_the_gap, the_query_names_the_quality, RequestHead,
};
use crate::seconds::{
    default_gap, gap_named, is_gap, parse_gap_seconds, seconds_view, Seconds, SecondsView,
    DEFAULT_TRACK_GAP_BITS,
};
use crate::text::{lemma_same_middle, lemma_same_text, same_text};
use vstd::prelude::*;
use vstd::utf8::*;

verus! {

/// A file that a client sent.
#[derive(Clone, Debug, PartialEq, Eq)]
pub struct UploadedFile {
    pub filename: String,
    pub content_type: Option<String>,
    pub bytes: Vec<u8>,
}

/// What an uploaded file holds.
pub struct FileView {
    pub filename: Seq<char>,
    pub content_type: Option<Seq<char>>,
    pub bytes: Seq<u8>,
}

impl View for UploadedFile {
    type V = FileView;

    open spec fn view(&self) -> FileView {
        FileView {
            filename: self.filename@,
            content_type: string_view(self.content_type),
            bytes: self.bytes@,
        }
    }
}

/// What uploaded files hold.
pub open spec fn file_views(files: Seq<UploadedFile>) -> Seq<FileView> {
    Seq::new(files.len(), |i: int| files[i]@)
}

/// A request for an encoding.
#[derive(Clone, Debug, PartialEq, Eq)]
pub struct ParsedEncodeRequest {
    pub files: Vec<UploadedFile>,
    pub gap_seconds: Seconds,
    pub quality: EncodeQuality,
    pub audio_key: String,
}

/// Where reading a form failed.
#[derive(Clone, Copy, Debug, PartialEq, Eq, Structural)]
pub enum FormStage {
    /// Between two fields.
    Body,
    /// In a file.
    File,
    /// In a text.
    Text,
}

impl FormStage {
    /// What comes before the cause when the client is told.
    pub open spec fn words(self) -> Seq<char> {
        match self {
            FormStage::Body => "invalid multipart body: "@,
            FormStage::File => "failed to read multipart field: "@,
            FormStage::Text => "failed to read multipart text field: "@,
        }
    }

    fn describe(self) -> (words: &'static str)
        ensures
            words@ == self.words(),
    {
        match self {
            FormStage::Body => "invalid multipart body: ",
            FormStage::File => "failed to read multipart field: ",
            FormStage::Text => "failed to read multipart text field: ",
        }
    }
}

/// Whatever cannot be read of a form, the client is told by other words than for the rest of it,
/// and a colon parts the words from the cause.
pub proof fn what_cannot_be_read_is_told(stage: FormStage, other: FormStage)
    ensures
        stage.words() == other.words() ==> stage == other,
        ": "@.is_suffix_of(stage.words()),
        "invalid multipart body"@.is_prefix_of(stage.words()) <==> stage == FormStage::Body,
        "failed to read multipart "@.is_prefix_of(stage.words()) <==> stage != FormStage::Body,
        "failed to read multipart text"@.is_prefix_of(stage.words()) <==> stage
            == FormStage::Text,
        "failed to read multipart field"@.is_prefix_of(stage.words()) <==> stage
            == FormStage::File,
{
    reveal_strlit(": ");
    reveal_strlit("invalid multipart body");
    reveal_strlit("failed to read multipart ");
    reveal_strlit("failed to read multipart text");
    reveal_strlit("failed to read multipart field");
    reveal_strlit("invalid multipart body: ");
    reveal_strlit("failed to read multipart field: ");
    reveal_strlit("failed to read multipart text field: ");
    let body = "invalid multipart body"@;
    let either = "failed to read multipart "@;
    let text = "failed to read multipart text"@;
    let file = "failed to read multipart field"@;
    let words = stage.words();
    assert(words.len() == 24 || words.len() == 32 || words.len() == 37);
    assert(words.subrange(words.len() - 2, words.len() as int) =~= ": "@);
    match stage {
        FormStage::Body => {
            assert(words.subrange(0, body.len() as int) =~= body);
            assert(words[0] == 'i');
        },
        FormStage::File => {
            assert(words.subrange(0, either.len() as int) =~= either);
            assert(words.subrange(0, file.len() as int) =~= file);
            assert(words[25] == 'f' && text[25] == 't' && words[0] == 'f' && body[0] == 'i');
        },
        FormStage::Text => {
            assert(words.subrange(0, either.len() as int) =~= either);
            assert(words.subrange(0, text.len() as int) =~= text);
            assert(words[25] == 't' && file[25] == 'f' && words[0] == 'f' && body[0] == 'i');
        },
    }
}

/// A field of a form.
#[derive(Debug)]
pub enum FormField {
    /// A field with the name of a file.
    File { filename: String, content_type: Option<String>, bytes: Vec<u8> },
    /// Any other field. `number` is the number that the value stands for, if it is one.
    Text { name: String, value: String, number: Option<Seconds> },
    /// The form could not be read on.
    Failed { stage: FormStage, error: String },
}

/// What a request asks for, as far as it has been read.
pub struct RequestView {
    pub files: Seq<FileView>,
    pub quality: EncodeQuality,
    pub gap: SecondsView,
}

/// What a request asks for once a further field of its form is read, or what the client is
/// told. Empty files are passed over, and so are fields with other names.
pub open spec fn with_field(view: RequestView, field: FormField) -> Result<
    RequestView,
    Seq<char>,
> {
    match field {
        FormField::File { filename, content_type, bytes } => if bytes@.len() == 0 {
            Ok(view)
        } else {
            let file = FileView {
                filename: filename@,
                content_type: string_view(content_type),
                bytes: bytes@,
            };
            Ok(RequestView { files: view.files.push(file), ..view })
        },
        FormField::Text { name, value, number } => if name@ == "gap_seconds"@ {
            match gap_named(seconds_view(number)) {
                Ok(gap) => Ok(RequestView { gap, ..view }),
                Err(message) => Err(message),
            }
        } else if name@ == "quality"@ {
            match EncodeQuality::named(value@) {
                Some(quality) => Ok(RequestView { quality, ..view }),
                None => Err(EncodeQuality::refusal(value@)),
            }
        } else {
            Ok(view)
        },
        FormField::Failed { stage, error } => Err(stage.words() + error@),
    }
}

/// What a request asks for once all fields of its form are read, in order, up to the first
/// one that is refused.
pub open spec fn with_fields(view: RequestView, fields: Seq<FormField>) -> Result<
    RequestView,
    Seq<char>,
>
    decreases fields.len(),
{
    if fields.len() == 0 {
        Ok(view)
    } else {
        match with_field(view, fields.first()) {
            Ok(next) => with_fields(next, fields.drop_first()),
            Err(message) => Err(message),
        }
    }
}

/// The boundary of a form with the given content type, if it is one of a form.
pub uninterp spec fn boundary_of(content_type: Seq<char>) -> Option<Seq<char>>;

/// The error of `multer`.
#[verifier::external_type_specification]
#[verifier::external_body]
pub struct ExFormError(multer::Error);

/// `multer::parse_boundary`: succeeds on the content type of a form that names a boundary.
#[verifier::external_body]
pub(crate) fn form_boundary(content_type: &str) -> (boundary: Result<String, multer::Error>)
    ensures
        match boundary {
            Ok(text) => boundary_of(content_type@) == Some(text@),
            Err(_) => boundary_of(content_type@) is None,
        },
{
    multer::parse_boundary(content_type)
}

/// The boundary of the form that a request carries, if it carries one.
pub open spec fn boundary_under(entries: Map<Seq<char>, Seq<Seq<u8>>>) -> Option<Seq<char>> {
    match text_under(entries, CONTENT_TYPE@) {
        Some(content_type) => boundary_of(content_type),
        None => None,
    }
}

/// The boundary of the form that a request carries, if it carries one.
pub fn multipart_boundary(head: &RequestHead) -> (boundary: Option<String>)
    ensures
        string_view(boundary) == boundary_under(head.entries()),
{
    proof {
        header_names_are_distinct();
    }
    match header_text(&head.headers, CONTENT_TYPE) {
        Some(content_type) => match form_boundary(content_type) {
            Ok(boundary) => Some(boundary),
            Err(_) => None,
        },
        None => None,
    }
}

/// The bytes from which the key of files is made: for each file its name, a zero byte, its
/// bytes, and a byte that never occurs in UTF-8.
pub open spec fn files_material(files: Seq<FileView>) -> Seq<u8>
    decreases files.len(),
{
    if files.len() == 0 {
        Seq::empty()
    } else {
        files_material(files.drop_last()) + encode_utf8(files.last().filename) + seq![0u8]
            + files.last().bytes + seq![0xffu8]
    }
}

/// The bytes from which the key of a request is made: those of its files, then the quality
/// and the gap.
pub open spec fn key_material(view: RequestView) -> Seq<u8> {
    files_material(view.files) + encode_utf8("quality="@ + view.quality.word()) + encode_utf8(
        "gap="@ + view.gap.millionths,
    )
}

/// The key of a request.
pub open spec fn audio_key_of(view: RequestView) -> Seq<char> {
    hex(sha256(key_material(view)))
}

/// Takes in the files.
fn absorb_files(digest: &mut Digest256, files: &Vec<UploadedFile>)
    requires
        absorbed(*old(digest)) == Seq::<u8>::empty(),
    ensures
        absorbed(*final(digest)) == files_material(file_views(files@)),
{
    let ghost views = file_views(files@);
    let total: usize = files.len();
    let mut at: usize = 0;
    while at < total
        invariant
            at <= total,
            total == files@.len(),
            views == file_views(files@),
            absorbed(*digest) == files_material(views.take(at as int)),
        decreases total - at,
    {
        let file = &files[at];
        digest_update(digest, file.filename.as_str().as_bytes());
        digest_update(digest, &[0u8]);
        digest_update(digest, file.bytes.as_slice());
        digest_update(digest, &[0xffu8]);
        assert(views.take(at + 1).drop_last() =~= views.take(at as int));
        assert(views.take(at + 1).last() == file@);
        assert([0u8]@ =~= seq![0u8]);
        assert([0xffu8]@ =~= seq![0xffu8]);
        at = at + 1;
    }
    assert(views.take(total as int) =~= views);
}

/// The key of a request for the given files.
pub fn request_audio_key(
    files: &Vec<UploadedFile>,
    quality: EncodeQuality,
    gap_seconds: &Seconds,
) -> (key: String)
    ensures
        key@ == audio_key_of(
            RequestView { files: file_views(files@), quality, gap: gap_seconds@ },
        ),
        is_hex_digest(key@),
{
    let mut digest = digest_new();
    absorb_files(&mut digest, files);
    let quality_text = "quality=".to_owned().concat(quality.as_str());
    digest_update(&mut digest, quality_text.as_str().as_bytes());
    let gap_text = "gap=".to_owned().concat(gap_seconds.millionths.as_str());
    digest_update(&mut digest, gap_text.as_str().as_bytes());
    finish_hex(digest)
}

/// What a request asks for, as its head says it before its body is read.
pub open spec fn opened(head: RequestHead, number: Option<SecondsView>) -> Result<
    RequestView,
    Seq<char>,
> {
    match query_options(head, number) {
        Ok(options) => Ok(
            RequestView { files: Seq::empty(), quality: options.0, gap: options.1 },
        ),
        Err(message) => Err(message),
    }
}

/// What a request asks for once its body is read, too, or what the client is told. Where no
/// file came in a form, the body is the file. The files of a form are parts of the body, so an
/// empty body brings none.
pub open spec fn with_body(view: RequestView, file: FileView) -> Result<RequestView, Seq<char>> {
    if file.bytes.len() == 0 {
        Err("request did not include any audio file"@)
    } else if view.files.len() > 0 {
        Ok(view)
    } else {
        Ok(RequestView { files: seq![file], ..view })
    }
}

/// The body of a request as a file.
pub open spec fn body_file(head: RequestHead, body: Seq<u8>) -> FileView {
    FileView {
        filename: filename_of(head.entries()),
        content_type: text_under(head.entries(), CONTENT_TYPE@),
        bytes: body,
    }
}

/// What a request asks for once its form, if it has one, and its body are read, after its head
/// said `view`.
pub open spec fn asked_after(
    view: RequestView,
    head: RequestHead,
    fields: Seq<FormField>,
    body: Seq<u8>,
) -> Result<RequestView, Seq<char>> {
    let read = if boundary_under(head.entries()) is Some {
        with_fields(view, fields)
    } else {
        Ok(view)
    };
    match read {
        Err(message) => Err(message),
        Ok(view) => with_body(view, body_file(head, body)),
    }
}

/// What a request asks for, or what the client is told.
pub open spec fn asked(
    head: RequestHead,
    number: Option<SecondsView>,
    fields: Seq<FormField>,
    body: Seq<u8>,
) -> Result<RequestView, Seq<char>> {
    match opened(head, number) {
        Err(message) => Err(message),
        Ok(view) => asked_after(view, head, fields, body),
    }
}

/// What a request asks for whose head asks for nothing.
pub open spec fn default_request() -> RequestView {
    RequestView { files: Seq::empty(), quality: EncodeQuality::Hq, gap: default_gap() }
}

/// Whether a request was read as it asks, with its key, or refused as the client is told.
pub open spec fn is_read_as(
    parsed: Result<ParsedEncodeRequest, EncodeError>,
    expected: Result<RequestView, Seq<char>>,
) -> bool {
    match expected {
        Ok(view) => {
            &&& parsed matches Ok(request)
            &&& request.asks() == view
            &&& request.audio_key@ == audio_key_of(view)
            &&& is_hex_digest(request.audio_key@)
        },
        Err(message) => parsed matches Err(error) && error.is_client(message),
    }
}

impl ParsedEncodeRequest {
    /// What the request asks for.
    pub open spec fn asks(self) -> RequestView {
        RequestView {
            files: file_views(self.files@),
            quality: self.quality,
            gap: self.gap_seconds@,
        }
    }
}

/// Reads the fields of a form into what a request asks for whose query names the given
/// quality and gap.
pub fn read_fields(
    fields: Vec<FormField>,
    quality: EncodeQuality,
    gap_seconds: Seconds,
) -> (read: Result<(Vec<UploadedFile>, EncodeQuality, Seconds), EncodeError>)
    ensures
        match with_fields(
            RequestView { files: Seq::empty(), quality, gap: gap_seconds@ },
            fields@,
        ) {
            Ok(view) => {
                &&& read matches Ok(r)
                &&& file_views(r.0@) == view.files
                &&& r.1 == view.quality
                &&& r.2@ == view.gap
            },
            Err(message) => read matches Err(error) && error.is_client(message),
        },
{
    let ghost all = fields@;
    let ghost start = RequestView { files: Seq::empty(), quality, gap: gap_seconds@ };
    let mut files: Vec<UploadedFile> = Vec::new();
    let mut chosen: EncodeQuality = quality;
    let mut gap: Seconds = gap_seconds;
    let mut left: Vec<FormField> = fields;
    assert(file_views(files@) =~= Seq::empty());
    while left.len() > 0
        invariant
            start == (RequestView { files: Seq::empty(), quality, gap: gap_seconds@ }),
            all == fields@,
            with_fields(start, all) == with_fields(
                RequestView { files: file_views(files@), quality: chosen, gap: gap@ },
                left@,
            ),
        decreases left@.len(),
    {
        let ghost rest = left@.drop_first();
        let field = left.remove(0);
        assert(left@ =~= rest);
        match field {
            FormField::File { filename, content_type, bytes } => {
                if bytes.len() > 0 {
                    let ghost before = files@;
                    let file = UploadedFile { filename, content_type, bytes };
                    files.push(file);
                    assert(file_views(files@) =~= file_views(before).push(file@));
                }
            },
            FormField::Text { name, value, number } => {
                if same_text(name.as_str(), "gap_seconds") {
                    match parse_gap_seconds(number) {
                        Ok(named) => {
                            gap = named;
                        },
                        Err(error) => return Err(error),
                    }
                } else if same_text(name.as_str(), "quality") {
                    match EncodeQuality::parse(Some(value.as_str())) {
                        Ok(named) => {
                            chosen = named;
                        },
                        Err(error) => return Err(error),
                    }
                }
            },
            FormField::Failed { stage, error } => {
                return Err(
                    client_error(stage.describe().to_owned().concat(error.as_str())),
                );
            },
        }
    }
    Ok((files, chosen, gap))
}

/// Completes a request for an encoding. `files` are those that came in a form, which is `body`.
/// Where there are none, the body is the file, and where it is empty the request is refused.
pub fn complete_request(
    files: Vec<UploadedFile>,
    quality: EncodeQuality,
    gap_seconds: Seconds,
    body: UploadedFile,
) -> (completed: Result<ParsedEncodeRequest, EncodeError>)
    ensures
        is_read_as(
            completed,
            with_body(
                RequestView { files: file_views(files@), quality, gap: gap_seconds@ },
                body@,
            ),
        ),
{
    if body.bytes.len() == 0 {
        return Err(client_error("request did not include any audio file".to_owned()));
    }
    let mut files: Vec<UploadedFile> = files;
    if files.len() == 0 {
        files.push(body);
        assert(file_views(files@) =~= seq![body@]);
    }
    let audio_key = request_audio_key(&files, quality, &gap_seconds);
    Ok(ParsedEncodeRequest { files, gap_seconds, quality, audio_key })
}

/// Reads a request for an encoding. `number` is the number that the parameter `gap_seconds`
/// of the query stands for, if it is one, and `fields` are the fields of the form that the
/// body is, if it is one, in order.
pub fn parse_request(
    head: &RequestHead,
    number: Option<Seconds>,
    fields: Vec<FormField>,
    body: Vec<u8>,
) -> (parsed: Result<ParsedEncodeRequest, EncodeError>)
    ensures
        is_read_as(parsed, asked(*head, seconds_view(number), fields@, body@)),
        head.query is None ==> is_read_as(
            parsed,
            asked_after(default_request(), *head, fields@, body@),
        ),
        match parsed {
            Ok(request) => {
                &&& request.files@.len() > 0
                &&& hold_audio(request.asks().files)
                &&& is_gap(request.gap_seconds@.bits)
                &&& is_hex_digest(request.audio_key@)
            },
            Err(error) => error is Client,
        },
        body@.len() == 0 ==> parsed is Err,
        query_options(*head, seconds_view(number)) is Err ==> parsed is Err,
        parsed matches Ok(request) ==> (query_options(*head, seconds_view(number)) matches Ok(
            options,
        ) && {
            &&& names_none(fields@, "quality"@) ==> request.quality == options.0
            &&& names_none(fields@, "gap_seconds"@) ==> request.gap_seconds@ == options.1
        }),
{
    proof {
        if let Ok(view) = opened(*head, seconds_view(number)) {
            lemma_unnamed_stays(view, fields@);
        }
        accepted_requests_hold_audio(*head, seconds_view(number), fields@, body@);
    }
    let options = match request_encode_options(head, number) {
        Ok(options) => options,
        Err(error) => return Err(error),
    };
    let mut quality: EncodeQuality = options.0;
    let mut gap: Seconds = options.1;
    let mut files: Vec<UploadedFile> = Vec::new();
    assert(file_views(files@) =~= Seq::empty());
    if let Some(_) = multipart_boundary(head) {
        match read_fields(fields, quality, gap) {
            Ok(read) => {
                files = read.0;
                quality = read.1;
                gap = read.2;
            },
            Err(error) => return Err(error),
        }
    }
    proof {
        header_names_are_distinct();
    }
    let content_type: Option<String> = match header_text(&head.headers, CONTENT_TYPE) {
        Some(text) => Some(text.to_owned()),
        None => None,
    };
    let file = UploadedFile { filename: request_filename(head), content_type, bytes: body };
    complete_request(files, quality, gap, file)
}

/// Whether every file holds something.
pub open spec fn hold_audio(files: Seq<FileView>) -> bool {
    forall|i: int| 0 <= i < files.len() ==> (#[trigger] files[i]).bytes.len() > 0
}

/// A request that is not refused names at least one file, no file that it names is empty,
/// and its gap is from zero to thirty seconds.
pub proof fn accepted_requests_hold_audio(
    head: RequestHead,
    number: Option<SecondsView>,
    fields: Seq<FormField>,
    body: Seq<u8>,
)
    ensures
        asked(head, number, fields, body) matches Ok(view) ==> {
            &&& view.files.len() > 0
            &&& hold_audio(view.files)
            &&& is_gap(view.gap.bits)
        },
{
    assert(is_gap(DEFAULT_TRACK_GAP_BITS));
    if let Ok(view) = opened(head, number) {
        lemma_fields_hold_audio(view, fields);
    }
}

/// A request without a body is refused, whatever its head says.
pub proof fn requests_without_audio_are_refused(
    head: RequestHead,
    number: Option<SecondsView>,
    fields: Seq<FormField>,
)
    ensures
        asked(head, number, fields, Seq::empty()) is Err,
{
}

/// A request whose query is refused is refused with the same words whatever its form says:
/// no field of the form makes up for it.
pub proof fn refused_queries_stay_refused(
    head: RequestHead,
    number: Option<SecondsView>,
    fields: Seq<FormField>,
    body: Seq<u8>,
)
    requires
        query_options(head, number) is Err,
    ensures
        asked(head, number, fields, body) == Err::<RequestView, Seq<char>>(
            query_options(head, number)->Err_0,
        ),
{
}

proof fn lemma_fields_hold_audio(view: RequestView, fields: Seq<FormField>)
    requires
        hold_audio(view.files),
        is_gap(view.gap.bits),
    ensures
        with_fields(view, fields) matches Ok(read) ==> hold_audio(read.files) && is_gap(
            read.gap.bits,
        ),
    decreases fields.len(),
{
    if fields.len() > 0 {
        if let Ok(next) = with_field(view, fields.first()) {
            lemma_fields_hold_audio(next, fields.drop_first());
        }
    }
}

// ---------------------------------------------------------------------------------------
// What a form says
// ---------------------------------------------------------------------------------------

/// Whether a field of a form is a text with the given name.
pub open spec fn is_text_named(field: FormField, name: Seq<char>) -> bool {
    field matches FormField::Text { name: own, value, number } && own@ == name
}

/// Whether no text of a form has the given name.
pub open spec fn names_none(fields: Seq<FormField>, name: Seq<char>) -> bool {
    forall|i: int| 0 <= i < fields.len() ==> !is_text_named(#[trigger] fields[i], name)
}

/// Whether the field with this index is the last text of a form with the given name.
pub open spec fn is_last_named(fields: Seq<FormField>, name: Seq<char>, index: int) -> bool {
    &&& 0 <= index < fields.len()
    &&& is_text_named(fields[index], name)
    &&& forall|i: int| index < i < fields.len() ==> !is_text_named(#[trigger] fields[i], name)
}

/// Whether a field of a form is a file that holds something.
pub open spec fn is_audio_field(field: FormField) -> bool {
    field matches FormField::File { filename, content_type, bytes } && bytes@.len() > 0
}

/// The file that a field of a form is.
pub open spec fn sent_file(field: FormField) -> FileView {
    FileView {
        filename: field->filename@,
        content_type: string_view(field->content_type),
        bytes: field->bytes@,
    }
}

/// The files of a form that hold something, in order.
pub open spec fn sent_files(fields: Seq<FormField>) -> Seq<FileView> {
    fields.filter(|field: FormField| is_audio_field(field)).map_values(
        |field: FormField| sent_file(field),
    )
}

/// Whether a field of a form is refused: the form could not be read on, or the field names a
/// quality or a gap that is none.
pub open spec fn is_bad_field(field: FormField) -> bool {
    match field {
        FormField::File { filename, content_type, bytes } => false,
        FormField::Text { name, value, number } => {
            ||| name@ == "quality"@ && EncodeQuality::named(value@) is None
            ||| name@ == "gap_seconds"@ && !(number matches Some(gap) && is_gap(gap@.bits))
        },
        FormField::Failed { stage, error } => true,
    }
}

proof fn lemma_option_names()
    ensures
        "quality"@ != "gap_seconds"@,
{
    reveal_strlit("quality");
    reveal_strlit("gap_seconds");
    assert("quality"@.len() != "gap_seconds"@.len());
}

proof fn lemma_unnamed_stays(view: RequestView, fields: Seq<FormField>)
    ensures
        with_fields(view, fields) matches Ok(read) ==> {
            &&& names_none(fields, "quality"@) ==> read.quality == view.quality
            &&& names_none(fields, "gap_seconds"@) ==> read.gap == view.gap
        },
    decreases fields.len(),
{
    lemma_option_names();
    if fields.len() > 0 {
        let rest = fields.drop_first();
        if let Ok(next) = with_field(view, fields.first()) {
            lemma_unnamed_stays(next, rest);
            assert(fields[0] == fields.first());
            if names_none(fields, "quality"@) {
                assert forall|i: int| 0 <= i < rest.len() implies !is_text_named(
                    #[trigger] rest[i],
                    "quality"@,
                ) by {
                    assert(rest[i] == fields[i + 1]);
                }
                assert(!is_text_named(fields[0], "quality"@));
            }
            if names_none(fields, "gap_seconds"@) {
                assert forall|i: int| 0 <= i < rest.len() implies !is_text_named(
                    #[trigger] rest[i],
                    "gap_seconds"@,
                ) by {
                    assert(rest[i] == fields[i + 1]);
                }
                assert(!is_text_named(fields[0], "gap_seconds"@));
            }
        }
    }
}

proof fn lemma_last_named_counts(view: RequestView, fields: Seq<FormField>, index: int)
    requires
        0 <= index < fields.len(),
    ensures
        with_fields(view, fields) matches Ok(read) ==> {
            &&& is_last_named(fields, "quality"@, index) ==> EncodeQuality::named(
                fields[index]->value@,
            ) == Some(read.quality)
            &&& is_last_named(fields, "gap_seconds"@, index) ==> seconds_view(
                fields[index]->number,
            ) == Some(read.gap)
        },
    decreases fields.len(),
{
    lemma_option_names();
    let rest = fields.drop_first();
    if let Ok(next) = with_field(view, fields.first()) {
        if index == 0 {
            lemma_unnamed_stays(next, rest);
            assert forall|i: int| 0 <= i < rest.len() implies (#[trigger] rest[i]) == fields[i
                + 1] by {}
        } else {
            lemma_last_named_counts(next, rest, index - 1);
            assert(rest[index - 1] == fields[index]);
            assert forall|i: int| index - 1 < i < rest.len() implies (#[trigger] rest[i])
                == fields[i + 1] by {}
        }
    }
}

proof fn lemma_files_are_kept(view: RequestView, fields: Seq<FormField>)
    ensures
        with_fields(view, fields) matches Ok(read) ==> read.files == view.files + sent_files(
            fields,
        ),
    decreases fields.len(),
{
    let holds = |field: FormField| is_audio_field(field);
    let file = |field: FormField| sent_file(field);
    reveal(Seq::filter);
    if fields.len() == 0 {
        assert(sent_files(fields) =~= Seq::empty());
        assert(view.files + sent_files(fields) =~= view.files);
    } else {
        let first = seq![fields.first()];
        let rest = fields.drop_first();
        assert(fields =~= first + rest);
        Seq::filter_distributes_over_add(first, rest, holds);
        assert(first.drop_last() =~= Seq::<FormField>::empty());
        assert(first.drop_last().filter(holds) =~= Seq::<FormField>::empty());
        assert(first.filter(holds) =~= if is_audio_field(fields.first()) {
            first
        } else {
            Seq::empty()
        });
        assert(sent_files(fields) =~= sent_files(first) + sent_files(rest));
        if let Ok(next) = with_field(view, fields.first()) {
            lemma_files_are_kept(next, rest);
            if is_audio_field(fields.first()) {
                assert(sent_files(first) =~= seq![sent_file(fields.first())]);
                assert(next.files =~= view.files + sent_files(first));
            } else {
                assert(sent_files(first) =~= Seq::empty());
                assert(next.files =~= view.files + sent_files(first));
            }
            assert((view.files + sent_files(first)) + sent_files(rest) =~= view.files + sent_files(
                fields,
            ));
        }
    }
}

proof fn lemma_bad_fields_are_refused(view: RequestView, fields: Seq<FormField>)
    ensures
        with_fields(view, fields) is Err <==> exists|i: int|
            0 <= i < fields.len() && is_bad_field(#[trigger] fields[i]),
    decreases fields.len(),
{
    lemma_option_names();
    if fields.len() > 0 {
        let rest = fields.drop_first();
        assert(with_field(view, fields.first()) is Err <==> is_bad_field(fields[0]));
        if let Ok(next) = with_field(view, fields.first()) {
            lemma_bad_fields_are_refused(next, rest);
            if with_fields(next, rest) is Err {
                let i = choose|i: int| 0 <= i < rest.len() && is_bad_field(#[trigger] rest[i]);
                assert(is_bad_field(fields[i + 1]));
            }
            if exists|i: int| 0 <= i < fields.len() && is_bad_field(#[trigger] fields[i]) {
                let i = choose|i: int| 0 <= i < fields.len() && is_bad_field(#[trigger] fields[i]);
                assert(is_bad_field(rest[i - 1]));
            }
        }
    }
}

/// What the query names holds until a form names another: where no text of the form is called
/// `quality`, the quality is the one that the first parameter of that name in the query names,
/// or high quality where the query has none; and where no text is called `gap_seconds`, the gap
/// is the one that the query names, or the default where it names none.
pub proof fn forms_leave_what_they_do_not_name(
    head: RequestHead,
    pairs: Seq<(Seq<char>, Seq<char>)>,
    number: Option<SecondsView>,
    fields: Seq<FormField>,
    body: Seq<u8>,
)
    requires
        has_query(head, pairs),
    ensures
        asked(head, number, fields, body) matches Ok(view) ==> {
            &&& names_none(fields, "quality"@) ==> {
                &&& forall|index: int| #[trigger]
                    is_first(pairs, "quality"@, index) ==> EncodeQuality::named(pairs[index].1)
                        == Some(view.quality)
                &&& is_absent(pairs, "quality"@) ==> view.quality is Hq
            }
            &&& names_none(fields, "gap_seconds"@) ==> {
                &&& forall|index: int| #[trigger]
                    is_first(pairs, "gap_seconds"@, index) ==> number == Some(view.gap)
                &&& is_absent(pairs, "gap_seconds"@) ==> view.gap == default_gap()
            }
        },
{
    the_query_names_the_quality(head, pairs, number);
    assert forall|index: int| #[trigger] is_first(pairs, "gap_seconds"@, index) implies (
    query_options(head, number) matches Ok(options) ==> number == Some(options.1)) by {
        the_query_names_the_gap(head, pairs, number, index);
    }
    the_query_names_the_gap(head, pairs, number, 0);
    if let Ok(view) = opened(head, number) {
        lemma_unnamed_stays(view, fields);
    }
}

/// What a form names goes before what the query names: the last text called `quality` and the
/// last one called `gap_seconds` decide, whatever the query says, and all other texts do not
/// matter.
pub proof fn forms_decide_what_they_name(
    head: RequestHead,
    number: Option<SecondsView>,
    fields: Seq<FormField>,
    body: Seq<u8>,
    index: int,
)
    requires
        boundary_under(head.entries()) is Some,
    ensures
        asked(head, number, fields, body) matches Ok(view) ==> {
            &&& is_last_named(fields, "quality"@, index) ==> EncodeQuality::named(
                fields[index]->value@,
            ) == Some(view.quality)
            &&& is_last_named(fields, "gap_seconds"@, index) ==> seconds_view(
                fields[index]->number,
            ) == Some(view.gap)
        },
{
    if let Ok(view) = opened(head, number) {
        if 0 <= index < fields.len() {
            lemma_last_named_counts(view, fields, index);
        }
    }
}

/// The tracks of a form are its files that hold something, in the order in which they stand in
/// it, with their names, their types and their bytes. Where it has none, and where the request
/// is no form, there is one track, and it holds the body.
pub proof fn tracks_are_the_files_in_order(
    head: RequestHead,
    number: Option<SecondsView>,
    fields: Seq<FormField>,
    body: Seq<u8>,
)
    ensures
        asked(head, number, fields, body) matches Ok(view) ==> {
            if boundary_under(head.entries()) is Some && sent_files(fields).len() > 0 {
                view.files == sent_files(fields)
            } else {
                &&& view.files.len() == 1
                &&& view.files[0].bytes == body
                &&& view.files[0].filename == filename_of(head.entries())
                &&& view.files[0].content_type == text_under(head.entries(), "content-type"@)
            }
        },
{
    if let Ok(view) = opened(head, number) {
        lemma_files_are_kept(view, fields);
        assert(Seq::<FileView>::empty() + sent_files(fields) =~= sent_files(fields));
    }
}

/// A request is refused where its query is, where a field of its form is bad, and where it has
/// no body. Every other request is accepted. The fields of a request that is no form do not
/// matter.
pub proof fn requests_are_refused_for_a_reason(
    head: RequestHead,
    number: Option<SecondsView>,
    fields: Seq<FormField>,
    body: Seq<u8>,
    others: Seq<FormField>,
)
    ensures
        asked(head, number, fields, body) is Err <==> {
            ||| query_options(head, number) is Err
            ||| body.len() == 0
            ||| boundary_under(head.entries()) is Some && exists|i: int|
                0 <= i < fields.len() && is_bad_field(#[trigger] fields[i])
        },
        boundary_under(head.entries()) is None ==> asked(head, number, fields, body) == asked(
            head,
            number,
            others,
            body,
        ),
{
    if let Ok(view) = opened(head, number) {
        lemma_bad_fields_are_refused(view, fields);
    }
}

/// The first field of a form that is bad decides what the client is told; what follows it does
/// not matter. Where reading on failed, the client is told the cause.
pub proof fn the_first_bad_field_is_told(
    head: RequestHead,
    number: Option<SecondsView>,
    fields: Seq<FormField>,
    body: Seq<u8>,
    index: int,
    rest: Seq<FormField>,
)
    requires
        boundary_under(head.entries()) is Some,
        query_options(head, number) is Ok,
        0 <= index < fields.len(),
        is_bad_field(fields[index]),
        forall|i: int| 0 <= i < index ==> !is_bad_field(#[trigger] fields[i]),
    ensures
        asked(head, number, fields, body) == asked(
            head,
            number,
            fields.take(index + 1) + rest,
            body,
        ),
        asked(head, number, fields, body) matches Err(message) && match fields[index] {
            FormField::Failed { stage, error } => error@.is_suffix_of(message),
            FormField::Text { name, value, number } => if name@ == "quality"@ {
                message == EncodeQuality::refusal(value@)
            } else {
                gap_named(seconds_view(number)) == Err::<SecondsView, Seq<char>>(message)
            },
            FormField::File { filename, content_type, bytes } => false,
        },
{
    if let Ok(view) = opened(head, number) {
        lemma_reading_stops(view, fields, index, rest);
    }
}

proof fn lemma_reading_stops(
    view: RequestView,
    fields: Seq<FormField>,
    index: int,
    rest: Seq<FormField>,
)
    requires
        0 <= index < fields.len(),
        is_bad_field(fields[index]),
        forall|i: int| 0 <= i < index ==> !is_bad_field(#[trigger] fields[i]),
    ensures
        with_fields(view, fields) == with_fields(view, fields.take(index + 1) + rest),
        with_fields(view, fields) matches Err(message) && match fields[index] {
            FormField::Failed { stage, error } => error@.is_suffix_of(message),
            FormField::Text { name, value, number } => if name@ == "quality"@ {
                message == EncodeQuality::refusal(value@)
            } else {
                gap_named(seconds_view(number)) == Err::<SecondsView, Seq<char>>(message)
            },
            FormField::File { filename, content_type, bytes } => false,
        },
    decreases fields.len(),
{
    lemma_option_names();
    let cut = fields.take(index + 1) + rest;
    assert(cut.first() == fields.first());
    if index == 0 {
        if let FormField::Failed { stage, error } = fields[0] {
            let message = stage.words() + error@;
            assert(message.subrange(
                message.len() - error@.len(),
                message.len() as int,
            ) =~= error@);
        }
    } else {
        assert(!is_bad_field(fields[0]));
        let after = fields.drop_first();
        if let Ok(next) = with_field(view, fields.first()) {
            assert(after[index - 1] == fields[index]);
            assert forall|i: int| 0 <= i < index - 1 implies !is_bad_field(#[trigger] after[i]) by {
                assert(after[i] == fields[i + 1]);
            }
            lemma_reading_stops(next, after, index - 1, rest);
            assert(cut.drop_first() =~= after.take(index) + rest);
        }
    }
}

/// All that makes an encoding another one goes into its key: for the same files and the same
/// gap the bytes from which it is made differ between the qualities, for the same files and the
/// same quality they differ between the gaps, and for the same quality and gap they differ
/// where the name or the bytes of the last file do, or the files before it.
pub proof fn keys_tell_requests_apart(
    files: Seq<FileView>,
    quality: EncodeQuality,
    gap: SecondsView,
    other_quality: EncodeQuality,
    other_gap: SecondsView,
    file: FileView,
    other_file: FileView,
)
    ensures
        key_material(RequestView { files, quality, gap }) == key_material(
            RequestView { files, quality: other_quality, gap },
        ) ==> quality == other_quality,
        key_material(RequestView { files, quality, gap }) == key_material(
            RequestView { files, quality, gap: other_gap },
        ) ==> gap.millionths == other_gap.millionths,
        key_material(RequestView { files: files.push(file), quality, gap }) == key_material(
            RequestView { files: files.push(other_file), quality, gap },
        ) ==> (file.filename == other_file.filename <==> file.bytes == other_file.bytes),
        key_material(RequestView { files: files.push(file), quality, gap }) != key_material(
            RequestView { files, quality, gap },
        ),
{
    let start = files_material(files);
    let end = encode_utf8("gap="@ + gap.millionths);
    let word = encode_utf8("quality="@ + quality.word());
    if key_material(RequestView { files, quality, gap }) == key_material(
        RequestView { files, quality: other_quality, gap },
    ) {
        let other_word = encode_utf8("quality="@ + other_quality.word());
        lemma_same_middle(start, word, other_word, end);
        lemma_same_text("quality="@, quality.word(), other_quality.word());
        EncodeQuality::qualities_are_apart(quality, other_quality);
    }
    if key_material(RequestView { files, quality, gap }) == key_material(
        RequestView { files, quality, gap: other_gap },
    ) {
        let other_end = encode_utf8("gap="@ + other_gap.millionths);
        assert(start + word + end =~= (start + word) + end + Seq::<u8>::empty());
        assert(start + word + other_end =~= (start + word) + other_end + Seq::<u8>::empty());
        lemma_same_middle(start + word, end, other_end, Seq::<u8>::empty());
        lemma_same_text("gap="@, gap.millionths, other_gap.millionths);
    }
    let more = files.push(file);
    let others = files.push(other_file);
    assert(more.drop_last() =~= files);
    assert(others.drop_last() =~= files);
    let name = encode_utf8(file.filename);
    let other_name = encode_utf8(other_file.filename);
    let tail = word + end;
    let mine = key_material(RequestView { files: more, quality, gap });
    let theirs = key_material(RequestView { files: others, quality, gap });
    assert(mine =~= start + (name + seq![0u8] + file.bytes) + (seq![0xffu8] + tail));
    assert(theirs =~= start + (other_name + seq![0u8] + other_file.bytes) + (seq![0xffu8] + tail));
    if mine == theirs {
        lemma_same_middle(
            start,
            name + seq![0u8] + file.bytes,
            other_name + seq![0u8] + other_file.bytes,
            seq![0xffu8] + tail,
        );
        if file.filename == other_file.filename {
            assert(name + seq![0u8] + file.bytes =~= (name + seq![0u8]) + file.bytes
                + Seq::<u8>::empty());
            assert(name + seq![0u8] + other_file.bytes =~= (name + seq![0u8]) + other_file.bytes
                + Seq::<u8>::empty());
            lemma_same_middle(
                name + seq![0u8],
                file.bytes,
                other_file.bytes,
                Seq::<u8>::empty(),
            );
        }
        if file.bytes == other_file.bytes {
            let after = seq![0u8] + file.bytes;
            assert(name + seq![0u8] + file.bytes =~= Seq::<u8>::empty() + name + after);
            assert(other_name + seq![0u8] + file.bytes =~= Seq::<u8>::empty() + other_name
                + after);
            lemma_same_middle(Seq::<u8>::empty(), name, other_name, after);
            encode_utf8_decode_utf8(file.filename);
            encode_utf8_decode_utf8(other_file.filename);
        }
    }
    assert(mine.len() > key_material(RequestView { files, quality, gap }).len());
}

/// The key of a request holds its quality and its gap in words, behind its files.
pub proof fn keys_hold_quality_and_gap(view: RequestView)
    ensures
        (encode_utf8("quality="@ + view.quality.word()) + encode_utf8(
            "gap="@ + view.gap.millionths,
        )).is_suffix_of(key_material(view)),
        files_material(view.files).is_prefix_of(key_material(view)),
{
    let words = encode_utf8("quality="@ + view.quality.word()) + encode_utf8(
        "gap="@ + view.gap.millionths,
    );
    let all = key_material(view);
    assert(all.subrange(all.len() - words.len(), all.len() as int) =~= words);
    assert(all.subrange(0, files_material(view.files).len() as int) =~= files_material(view.files));
}

/// Files are seen in order, each with its name, its type and its bytes, and a request with its
/// own files, quality and gap.
pub proof fn requests_are_seen_as_they_are(request: ParsedEncodeRequest, index: int)
    ensures
        request.asks().files.len() == request.files@.len(),
        0 <= index < request.files@.len() ==> {
            let file = request.files@[index];
            let seen = request.asks().files[index];
            &&& seen.filename == file.filename@
            &&& seen.content_type == string_view(file.content_type)
            &&& seen.bytes == file.bytes@
        },
        request.asks().quality == request.quality,
        request.asks().gap == request.gap_seconds@,
{
}

/// A request is a form where its content type names the boundary of one, and the boundary is
/// taken from the type as it stands.
pub proof fn forms_are_told_by_their_type(head: RequestHead)
    ensures
        boundary_under(head.entries()) is Some ==> text_under(
            header_entries(head.headers),
            "content-type"@,
        ) is Some,
        text_under(header_entries(head.headers), "content-type"@) matches Some(content_type)
            ==> boundary_under(head.entries()) == boundary_of(content_type),
{
}

} // verus!

//! What the request handlers decide: how a path suffix changes the text
//! that a session is typing, and what is written into a page before it is
//! rendered.

use vstd::prelude::*;
use vstd::string::{StrSliceExecFns, StringExecFns, StringSliceAdditionalSpecFns};
use vstd::utf8::encode_utf8;
use crate::driver::{Driver, DriverState};
use crate::fingerprint::ErrorKind;
use crate::render::{lemma_made_caps, made, started_with, DEFAULT_RETRY_CAP, PDF};
use crate::text::{decimal, push_decimal, push_text, push_truth, truth};

verus! {

/// The suffix that moves on to the next field, or submits.
pub const NEXT: &'static str = "next";

/// The field that a session is typing into.
#[derive(Debug, Clone, Copy, PartialEq, Eq, Structural)]
pub enum CredentialsField {
    /// The user name, which comes first.
    Username,
    /// The password.
    Password,
}

impl CredentialsField {
    /// The name of the field as the pages spell it.
    pub open spec fn spec_name(self) -> Seq<char> {
        match self {
            CredentialsField::Username => "username"@,
            CredentialsField::Password => "password"@,
        }
    }

    /// The name of the field as the pages spell it.
    pub fn name(&self) -> (name: &'static str)
        ensures
            name@ == self.spec_name(),
    {
        match self {
            CredentialsField::Username => "username",
            CredentialsField::Password => "password",
        }
    }
}

/// The credentials that a session has typed so far.
pub struct Credentials {
    pub field: CredentialsField,
    pub username: String,
    pub password: String,
}

/// What a handler does after a suffix was taken in.
#[derive(Debug, Clone, Copy, PartialEq, Eq, Structural)]
pub enum Step {
    /// Store the text and show the page again.
    Show,
    /// Hand what was typed to the database.
    Submit,
}

/// Whether a suffix is a single key: one byte long.
pub open spec fn is_key(suffix: Seq<char>) -> bool {
    vstd::utf8::encode_utf8(suffix).len() == 1
}

impl Credentials {
    /// Empty credentials, with the user name to be typed first.
    pub fn new() -> (fresh: Credentials)
        ensures
            fresh.field == CredentialsField::Username,
            fresh.username@ == Seq::<char>::empty(),
            fresh.password@ == Seq::<char>::empty(),
    {
        Credentials {
            field: CredentialsField::Username,
            username: String::new(),
            password: String::new(),
        }
    }

    /// Moves from the user name on to the password. Returns whether it
    /// moved: on the password there is no next field.
    pub fn next(&mut self) -> (moved: bool)
        ensures
            moved == (old(self).field == CredentialsField::Username),
            final(self).field == CredentialsField::Password,
            final(self).username == old(self).username,
            final(self).password == old(self).password,
    {
        match self.field {
            CredentialsField::Username => {
                self.field = CredentialsField::Password;
                true
            },
            CredentialsField::Password => false,
        }
    }

    /// The text of the page: user name and password with a NUL between
    /// them.
    pub open spec fn spec_data(&self) -> Seq<char> {
        self.username@ + "\0"@ + self.password@
    }

    /// The text of the page: user name and password with a NUL between
    /// them.
    pub fn into_data(self) -> (data: String)
        ensures
            data@ == self.spec_data(),
    {
        let mut data = self.username;
        data.append("\0");
        data.append(self.password.as_str());
        data
    }

    /// The text of the field that is being typed into.
    pub open spec fn spec_current(&self) -> Seq<char> {
        match self.field {
            CredentialsField::Username => self.username@,
            CredentialsField::Password => self.password@,
        }
    }

    /// The field that is being typed into, to be changed in place.
    pub fn field_mut(&mut self) -> (text: &mut String)
        ensures
            *text == match old(self).field {
                CredentialsField::Username => old(self).username,
                CredentialsField::Password => old(self).password,
            },
            final(self).field == old(self).field,
            match old(self).field {
                CredentialsField::Username => final(self).username == *final(text)
                    && final(self).password == old(self).password,
                CredentialsField::Password => final(self).password == *final(text)
                    && final(self).username == old(self).username,
            },
    {
        match self.field {
            CredentialsField::Username => &mut self.username,
            CredentialsField::Password => &mut self.password,
        }
    }
}

/// Credentials as mathematical values.
pub struct CredentialsView {
    pub field: CredentialsField,
    pub username: Seq<char>,
    pub password: Seq<char>,
}

impl View for Credentials {
    type V = CredentialsView;

    open spec fn view(&self) -> CredentialsView {
        CredentialsView { field: self.field, username: self.username@, password: self.password@ }
    }
}

impl CredentialsView {
    /// Empty credentials, with the user name to be typed first.
    pub open spec fn fresh() -> CredentialsView {
        CredentialsView {
            field: CredentialsField::Username,
            username: Seq::empty(),
            password: Seq::empty(),
        }
    }

    /// The credentials after a suffix was taken in. `next` moves from the
    /// user name to the password and changes nothing on the password; a
    /// single key is appended to the field that is being typed into; anything
    /// else starts over.
    pub open spec fn applied(self, suffix: Seq<char>) -> CredentialsView {
        if suffix == NEXT@ {
            CredentialsView { field: CredentialsField::Password, ..self }
        } else if is_key(suffix) {
            match self.field {
                CredentialsField::Username => CredentialsView {
                    username: self.username + suffix,
                    ..self
                },
                CredentialsField::Password => CredentialsView {
                    password: self.password + suffix,
                    ..self
                },
            }
        } else {
            CredentialsView::fresh()
        }
    }

    /// What the handler does after the suffix: it submits when `next` comes
    /// on the password, and shows the page in every other case.
    pub open spec fn step(self, suffix: Seq<char>) -> Step {
        if suffix == NEXT@ && self.field == CredentialsField::Password {
            Step::Submit
        } else {
            Step::Show
        }
    }
}

/// Whether two texts are the same.
pub fn same_text(left: &str, right: &str) -> (equal: bool)
    ensures
        equal == (left@ == right@),
{
    left.to_owned() == right.to_owned()
}

impl Credentials {
    /// Takes in the suffix of a request path and says what the handler does
    /// next.
    pub fn apply(&mut self, suffix: &str) -> (step: Step)
        ensures
            final(self)@ == old(self)@.applied(suffix@),
            step == old(self)@.step(suffix@),
    {
        if same_text(suffix, NEXT) {
            if self.next() {
                Step::Show
            } else {
                Step::Submit
            }
        } else if suffix.as_bytes().len() == 1 {
            self.field_mut().append(suffix);
            Step::Show
        } else {
            *self = Credentials::new();
            Step::Show
        }
    }
}

/// The text that a signed-in session is writing for a post.
pub struct Draft {
    pub text: String,
}

impl View for Draft {
    type V = Seq<char>;

    open spec fn view(&self) -> Seq<char> {
        self.text@
    }
}

/// Whether a suffix publishes a draft: `next` on a draft that is not empty.
pub open spec fn publishes(draft: Seq<char>, suffix: Seq<char>) -> bool {
    suffix == NEXT@ && draft.len() > 0
}

/// The draft after a suffix was taken in: unchanged where it is published,
/// longer by a single key, and empty after anything else.
pub open spec fn drafted(draft: Seq<char>, suffix: Seq<char>) -> Seq<char> {
    if publishes(draft, suffix) {
        draft
    } else if is_key(suffix) {
        draft + suffix
    } else {
        Seq::empty()
    }
}

impl Draft {
    /// An empty draft.
    pub fn new() -> (draft: Draft)
        ensures
            draft@ == Seq::<char>::empty(),
    {
        Draft { text: String::new() }
    }

    /// Takes in the suffix of a request path and says what the handler does
    /// next: it submits the draft where the suffix publishes it, and shows
    /// the page with the new draft in every other case.
    pub fn apply(&mut self, suffix: &str) -> (step: Step)
        ensures
            final(self)@ == drafted(old(self)@, suffix@),
            step == if publishes(old(self)@, suffix@) {
                Step::Submit
            } else {
                Step::Show
            },
    {
        if same_text(suffix, NEXT) && !self.text.as_str().is_empty() {
            Step::Submit
        } else if suffix.as_bytes().len() == 1 {
            self.text.append(suffix);
            Step::Show
        } else {
            self.text = String::new();
            Step::Show
        }
    }
}

/// A post as the database holds it.
pub struct Post {
    pub id: i32,
    pub author: String,
    /// The moment of posting, in seconds after the Unix epoch.
    pub created_at: i64,
    pub content: String,
    pub likes: i32,
}

/// A post as a page lists it: with whether the reader likes it and with its
/// age in words.
pub struct Listed {
    pub post: Post,
    pub liked: bool,
    pub age: String,
}

/// The number of comments that the page of a single post shows.
pub const POST_COMMENTS: i32 = 25;

/// The number of comments that the list of posts shows for each post.
pub const BROWSE_COMMENTS: i32 = 0;

/// The record of one post: id, author, likes, comments, whether the reader
/// likes it, age and content, with a NUL between each two.
pub open spec fn record(item: Listed, comments: int) -> Seq<u8> {
    decimal(item.post.id as int) + seq![0u8] + encode_utf8(item.post.author@) + seq![0u8]
        + decimal(item.post.likes as int) + seq![0u8] + decimal(comments) + seq![0u8] + truth(
        item.liked,
    ) + seq![0u8] + encode_utf8(item.age@) + seq![0u8] + encode_utf8(item.post.content@)
}

/// Appends the record of `item`.
fn push_record(out: &mut Vec<u8>, item: &Listed, comments: i32)
    ensures
        final(out)@ == old(out)@ + record(*item, comments as int),
{
    push_decimal(out, item.post.id as i64);
    out.push(0u8);
    push_text(out, item.post.author.as_str());
    out.push(0u8);
    push_decimal(out, item.post.likes as i64);
    out.push(0u8);
    push_decimal(out, comments as i64);
    out.push(0u8);
    push_truth(out, item.liked);
    out.push(0u8);
    push_text(out, item.age.as_str());
    out.push(0u8);
    push_text(out, item.post.content.as_str());
    proof {
        assert(out@ =~= old(out)@ + record(*item, comments as int));
    }
}

/// The data of the page of a single post: its record, with the number of
/// comments that this page shows.
pub fn post_data(item: &Listed) -> (data: Vec<u8>)
    ensures
        data@ == record(*item, POST_COMMENTS as int),
{
    let mut data: Vec<u8> = Vec::new();
    push_record(&mut data, item, POST_COMMENTS);
    data
}

/// The records of `items`, each followed by a NUL.
pub open spec fn records(items: Seq<Listed>) -> Seq<u8>
    decreases items.len(),
{
    if items.len() == 0 {
        Seq::empty()
    } else {
        records(items.drop_last()) + record(items.last(), BROWSE_COMMENTS as int) + seq![0u8]
    }
}

/// The data of the list of posts: the records of the posts with a NUL
/// between each two, and nothing for no posts.
pub open spec fn listing(items: Seq<Listed>) -> Seq<u8> {
    if items.len() == 0 {
        Seq::empty()
    } else {
        records(items).drop_last()
    }
}

/// The data of the list of posts.
pub fn browse_data(items: &Vec<Listed>) -> (data: Vec<u8>)
    ensures
        data@ == listing(items@),
{
    let mut data: Vec<u8> = Vec::new();
    let mut i: usize = 0;
    while i < items.len()
        invariant
            i <= items.len(),
            data@ == records(items@.take(i as int)),
        decreases items.len() - i,
    {
        let ghost before = data@;
        push_record(&mut data, &items[i], BROWSE_COMMENTS);
        data.push(0u8);
        proof {
            let longer = items@.take(i + 1);
            assert(longer.drop_last() == items@.take(i as int));
            assert(longer.last() == items@[i as int]);
            assert(data@ =~= before + record(items@[i as int], BROWSE_COMMENTS as int) + seq![
                0u8,
            ]);
        }
        i += 1;
    }
    proof {
        assert(items@.take(items.len() as int) == items@);
    }
    if data.len() > 0 && data[data.len() - 1] == 0u8 {
        data.pop();
    }
    proof {
        if items.len() > 0 {
            assert(records(items@).last() == 0u8);
        }
    }
    data
}

/// What a page is told about the site and the session, for the pages that
/// take the address in quotes: `url: "<base>"`, then `auth: <auth>`.
pub open spec fn quoted_info(base: Seq<char>, auth: bool) -> Seq<u8> {
    encode_utf8("url: \""@) + encode_utf8(base) + encode_utf8("\"\nauth: "@) + truth(auth)
}

/// What the list of posts is told about the site and the session.
pub fn browse_info(base: &str, auth: bool) -> (info: Vec<u8>)
    ensures
        info@ == quoted_info(base@, auth),
{
    let mut info: Vec<u8> = Vec::new();
    push_text(&mut info, "url: \"");
    push_text(&mut info, base);
    push_text(&mut info, "\"\nauth: ");
    push_truth(&mut info, auth);
    proof {
        assert(info@ =~= quoted_info(base@, auth));
    }
    info
}

/// What a page is told about the site and the session, for the pages that
/// take the address bare: `url: <base>`, then `auth: <auth>`.
pub open spec fn plain_info(base: Seq<char>, auth: bool) -> Seq<u8> {
    encode_utf8("url: "@) + encode_utf8(base) + encode_utf8("\nauth: "@) + truth(auth)
}

/// What the page of a single post is told about the site and the session.
pub fn post_info(base: &str, auth: bool) -> (info: Vec<u8>)
    ensures
        info@ == plain_info(base@, auth),
{
    let mut info: Vec<u8> = Vec::new();
    push_text(&mut info, "url: ");
    push_text(&mut info, base);
    push_text(&mut info, "\nauth: ");
    push_truth(&mut info, auth);
    proof {
        assert(info@ =~= plain_info(base@, auth));
    }
    info
}

/// What the page for typing credentials is told: the address, whether it
/// registers or logs in, whether the session is signed in, and the field
/// that is being typed into.
pub open spec fn typed_info(
    base: Seq<char>,
    kind: Seq<char>,
    auth: bool,
    field: CredentialsField,
) -> Seq<u8> {
    encode_utf8("url: "@) + encode_utf8(base) + encode_utf8("\ntype: \""@) + encode_utf8(kind)
        + encode_utf8("\"\nauth: "@) + truth(auth) + encode_utf8("\nfield: "@) + encode_utf8(
        field.spec_name(),
    )
}

/// What the page for typing credentials is told. `kind` is `register` or
/// `login`.
pub fn credentials_info(base: &str, kind: &str, auth: bool, field: CredentialsField) -> (info:
    Vec<u8>)
    ensures
        info@ == typed_info(base@, kind@, auth, field),
{
    let mut info: Vec<u8> = Vec::new();
    push_text(&mut info, "url: ");
    push_text(&mut info, base);
    push_text(&mut info, "\ntype: \"");
    push_text(&mut info, kind);
    push_text(&mut info, "\"\nauth: ");
    push_truth(&mut info, auth);
    push_text(&mut info, "\nfield: ");
    push_text(&mut info, field.name());
    proof {
        assert(info@ =~= typed_info(base@, kind@, auth, field));
    }
    info
}

/// What the page for writing a post is told: the address, that the session
/// is signed in, and as whom.
pub open spec fn author_info(base: Seq<char>, username: Seq<char>) -> Seq<u8> {
    encode_utf8("url: "@) + encode_utf8(base) + encode_utf8("\nauth: true\nusername: "@)
        + encode_utf8(username)
}

/// What the page for writing a post is told.
pub fn publish_info(base: &str, username: &str) -> (info: Vec<u8>)
    ensures
        info@ == author_info(base@, username@),
{
    let mut info: Vec<u8> = Vec::new();
    push_text(&mut info, "url: ");
    push_text(&mut info, base);
    push_text(&mut info, "\nauth: true\nusername: ");
    push_text(&mut info, username);
    proof {
        assert(info@ =~= author_info(base@, username@));
    }
    info
}

/// The identifier of the page that reports an error.
pub const ERROR_PATH: &'static str = "error.typ";

/// The data of the page that reports an error: the code, a line feed, and
/// the message.
pub open spec fn error_data(code: Seq<char>, message: Seq<char>) -> Seq<u8> {
    encode_utf8(code) + seq![10u8] + encode_utf8(message)
}

/// Sets up the page that reports an error and starts its build: a
/// document made of `template` alone, written as the source `error.typ`,
/// with the code and the message as its data. Returns the document and the
/// driver of the build.
pub fn error<S: Clone, P>(template: String, now: i64, code: &str, message: &str, parse: P) -> (page:
    (PDF<S>, Driver)) where P: Fn(String, Option<S>) -> Result<S, ErrorKind>
    requires
        forall|text: String, previous: Option<S>| #[trigger] parse.requires((text, previous)),
    ensures
        page.1@ == DriverState::initial(DEFAULT_RETRY_CAP as nat),
        exists|
            items: Seq<(String, String)>,
            stages: Seq<PDF<S>>,
            outcomes: Seq<Result<S, ErrorKind>>,
            written: PDF<S>,
        |
            error_page(
                template,
                now,
                code@,
                message@,
                parse,
                items,
                stages,
                outcomes,
                written,
                page.0,
            ),
{
    let mut items: Vec<(String, String)> = Vec::new();
    items.push((ERROR_PATH.to_owned(), template));
    let mut pdf: PDF<S> = PDF::make(ERROR_PATH, now, &items, parse);
    let ghost written = pdf;
    let mut data: Vec<u8> = Vec::new();
    push_text(&mut data, code);
    data.push(10u8);
    push_text(&mut data, message);
    let ghost (stages, outcomes) = choose|
        stages: Seq<PDF<S>>,
        outcomes: Seq<Result<S, ErrorKind>>,
    |
        made(ERROR_PATH@, now, items@, parse, stages, outcomes, written);
    proof {
        assert(data@ =~= error_data(code@, message@));
        lemma_made_caps::<S, P>(ERROR_PATH@, now, items@, parse, stages, outcomes, written);
    }
    let driver = pdf.render_with_data(data);
    let page = (pdf, driver);
    proof {
        assert(error_page(
            template,
            now,
            code@,
            message@,
            parse,
            items@,
            stages,
            outcomes,
            written,
            page.0,
        ));
    }
    page
}

/// Whether `page` is the document of an error page: `written` was made of
/// the one item `error.typ` with the text `template`, and `page` is
/// `written` at the start of a build with the code and the message as data.
pub open spec fn error_page<S, P>(
    template: String,
    now: i64,
    code: Seq<char>,
    message: Seq<char>,
    parse: P,
    items: Seq<(String, String)>,
    stages: Seq<PDF<S>>,
    outcomes: Seq<Result<S, ErrorKind>>,
    written: PDF<S>,
    page: PDF<S>,
) -> bool where P: Fn(String, Option<S>) -> Result<S, ErrorKind> {
    &&& items.len() == 1
    &&& items[0].0@ == ERROR_PATH@
    &&& items[0].1 == template
    &&& made(ERROR_PATH@, now, items, parse, stages, outcomes, written)
    &&& started_with(written, page, error_data(code, message))
}

/// The failure of a request, which the site answers with its page for
/// status 500.
pub struct Error {
    pub message: String,
}

/// The status of an answer that went well.
pub const STATUS_OK: u16 = 200;

/// The status of a request that the site does not understand.
pub const STATUS_BAD_REQUEST: u16 = 400;

/// The status of a request for what is not there.
pub const STATUS_NOT_FOUND: u16 = 404;

/// The status of a request that failed inside the site.
pub const STATUS_INTERNAL: u16 = 500;

impl Error {
    /// The failure with the given message.
    pub fn new(message: &str) -> (error: Error)
        ensures
            error.message@ == message@,
    {
        Error { message: message.to_owned() }
    }

    /// The message of the failure.
    pub fn message(&self) -> (message: &str)
        ensures
            message@ == self.message@,
    {
        self.message.as_str()
    }

    /// The status that the failure is answered with.
    pub fn status(&self) -> (status: u16)
        ensures
            status == STATUS_INTERNAL,
    {
        STATUS_INTERNAL
    }
}

/// The artifact that is sent when a page cannot be rendered. It is rendered
/// once, on first use, and sent as it is ever after.
pub struct Fallback {
    artifact: Option<Vec<u8>>,
}

impl View for Fallback {
    type V = Option<Seq<u8>>;

    closed spec fn view(&self) -> Option<Seq<u8>> {
        match self.artifact {
            Some(bytes) => Some(bytes@),
            None => None,
        }
    }
}

/// The view of an artifact that may be missing.
pub open spec fn artifact_view(artifact: Option<Vec<u8>>) -> Option<Seq<u8>> {
    match artifact {
        Some(bytes) => Some(bytes@),
        None => None,
    }
}

impl Fallback {
    /// A fallback that was not rendered yet.
    pub fn new() -> (fallback: Fallback)
        ensures
            fallback@ is None,
    {
        Fallback { artifact: None }
    }

    /// The artifact. One that was rendered before is returned as it is, and
    /// `render` does not run. Otherwise `render` runs once; what it returns is
    /// kept where it is an artifact, and returned in any case.
    pub fn get_or_init<F>(&mut self, render: F) -> (artifact: Option<Vec<u8>>) where
        F: FnOnce() -> Option<Vec<u8>>,

        requires
            old(self)@ is None ==> render.requires(()),
        ensures
            artifact_view(artifact) == final(self)@,
            old(self)@ is Some ==> final(self)@ == old(self)@,
            old(self)@ is None ==> exists|rendered: Option<Vec<u8>>|
                render.ensures((), rendered) && final(self)@ == artifact_view(rendered),
    {
        match &self.artifact {
            Some(bytes) => {
                let copy = bytes.clone();
                proof {
                    assert(copy@ =~= bytes@);
                }
                return Some(copy);
            },
            None => {},
        }
        let rendered = render();
        match rendered {
            Some(bytes) => {
                let copy = bytes.clone();
                proof {
                    assert(copy@ =~= bytes@);
                }
                self.artifact = Some(bytes);
                proof {
                    assert(render.ensures((), rendered) && self@ == artifact_view(rendered));
                }
                Some(copy)
            },
            None => {
                proof {
                    assert(render.ensures((), rendered) && self@ == artifact_view(rendered));
                }
                None
            },
        }
    }
}

} // verus!

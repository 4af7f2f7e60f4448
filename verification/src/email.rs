//! The message that the Sending API sends, and the builder that fills it in.

use vstd::prelude::*;
use crate::client::{is_request, EmailClient, HttpRequest};
use crate::error::Error;
use crate::strmap::{lemma_single_entry, StringMap};
use crate::text::{chars_eq, chars_of, sub_chars};

verus! {

/// An attachment of a message; `content` is base64.
#[derive(Clone, Debug)]
pub struct EmailAttachment {
    pub filename: String,
    pub content: String,
    pub content_type: Option<String>,
    pub content_id: Option<String>,
}

/// A tag of a message: a name and a value.
#[derive(Clone, Debug)]
pub struct MessageTag {
    pub name: String,
    pub value: String,
}

/// Tracking and TLS settings of a message; unset settings are left to the
/// project's defaults.
#[derive(Clone, Debug)]
pub struct EmailSettings {
    pub track_opens: Option<bool>,
    pub track_clicks: Option<bool>,
    /// The TLS policy, as the API names it.
    pub tls: Option<String>,
}

/// A message for the Sending API.
#[derive(Debug)]
pub struct SendMailRequest {
    pub from: String,
    pub to: Vec<String>,
    pub cc: Option<Vec<String>>,
    pub bcc: Option<Vec<String>>,
    pub reply_to: Option<Vec<String>>,
    pub subject: String,
    pub scheduled_at: Option<String>,
    pub html: Option<String>,
    pub text: Option<String>,
    pub route: Option<String>,
    pub headers: Option<StringMap>,
    pub metadata: Option<StringMap>,
    pub tag: Option<String>,
    pub tags: Option<Vec<MessageTag>>,
    pub attachments: Option<Vec<EmailAttachment>>,
    pub settings: Option<EmailSettings>,
}

/// The view of an optional string.
pub open spec fn opt_view(o: Option<String>) -> Option<Seq<char>> {
    match o {
        Some(s) => Some(s@),
        None => None,
    }
}

/// The views of a list of strings.
pub open spec fn strings_view(v: Vec<String>) -> Seq<Seq<char>> {
    Seq::new(v@.len(), |i: int| v@[i]@)
}

/// The views of an optional list of strings.
pub open spec fn opt_strings_view(o: Option<Vec<String>>) -> Option<Seq<Seq<char>>> {
    match o {
        Some(v) => Some(strings_view(v)),
        None => None,
    }
}

/// The view of an optional map.
pub open spec fn opt_map_view(o: Option<StringMap>) -> Option<Map<Seq<char>, Seq<char>>> {
    match o {
        Some(m) => Some(m@),
        None => None,
    }
}

/// An attachment as character sequences.
pub struct AttachmentView {
    pub filename: Seq<char>,
    pub content: Seq<char>,
    pub content_type: Option<Seq<char>>,
    pub content_id: Option<Seq<char>>,
}

impl View for EmailAttachment {
    type V = AttachmentView;

    open spec fn view(&self) -> AttachmentView {
        AttachmentView {
            filename: self.filename@,
            content: self.content@,
            content_type: opt_view(self.content_type),
            content_id: opt_view(self.content_id),
        }
    }
}

/// Settings as plain values.
pub struct SettingsView {
    pub track_opens: Option<bool>,
    pub track_clicks: Option<bool>,
    pub tls: Option<Seq<char>>,
}

impl View for EmailSettings {
    type V = SettingsView;

    open spec fn view(&self) -> SettingsView {
        SettingsView {
            track_opens: self.track_opens,
            track_clicks: self.track_clicks,
            tls: opt_view(self.tls),
        }
    }
}

/// The views of an optional list of tags.
pub open spec fn opt_tags_view(o: Option<Vec<MessageTag>>) -> Option<Seq<(Seq<char>, Seq<char>)>> {
    match o {
        Some(v) => Some(Seq::new(v@.len(), |i: int| (v@[i].name@, v@[i].value@))),
        None => None,
    }
}

/// The views of an optional list of attachments.
pub open spec fn opt_attachments_view(o: Option<Vec<EmailAttachment>>) -> Option<Seq<AttachmentView>> {
    match o {
        Some(v) => Some(Seq::new(v@.len(), |i: int| v@[i]@)),
        None => None,
    }
}

/// The view of optional settings.
pub open spec fn opt_settings_view(o: Option<EmailSettings>) -> Option<SettingsView> {
    match o {
        Some(s) => Some(s@),
        None => None,
    }
}

/// A message as plain values.
pub struct MailView {
    pub from: Seq<char>,
    pub to: Seq<Seq<char>>,
    pub cc: Option<Seq<Seq<char>>>,
    pub bcc: Option<Seq<Seq<char>>>,
    pub reply_to: Option<Seq<Seq<char>>>,
    pub subject: Seq<char>,
    pub scheduled_at: Option<Seq<char>>,
    pub html: Option<Seq<char>>,
    pub text: Option<Seq<char>>,
    pub route: Option<Seq<char>>,
    pub headers: Option<Map<Seq<char>, Seq<char>>>,
    pub metadata: Option<Map<Seq<char>, Seq<char>>>,
    pub tag: Option<Seq<char>>,
    pub tags: Option<Seq<(Seq<char>, Seq<char>)>>,
    pub attachments: Option<Seq<AttachmentView>>,
    pub settings: Option<SettingsView>,
}

impl View for SendMailRequest {
    type V = MailView;

    open spec fn view(&self) -> MailView {
        MailView {
            from: self.from@,
            to: strings_view(self.to),
            cc: opt_strings_view(self.cc),
            bcc: opt_strings_view(self.bcc),
            reply_to: opt_strings_view(self.reply_to),
            subject: self.subject@,
            scheduled_at: opt_view(self.scheduled_at),
            html: opt_view(self.html),
            text: opt_view(self.text),
            route: opt_view(self.route),
            headers: opt_map_view(self.headers),
            metadata: opt_map_view(self.metadata),
            tag: opt_view(self.tag),
            tags: opt_tags_view(self.tags),
            attachments: opt_attachments_view(self.attachments),
            settings: opt_settings_view(self.settings),
        }
    }
}

/// The empty message: no sender, recipients, subject or content.
pub open spec fn empty_mail() -> MailView {
    MailView {
        from: seq![],
        to: seq![],
        cc: None,
        bcc: None,
        reply_to: None,
        subject: seq![],
        scheduled_at: None,
        html: None,
        text: None,
        route: None,
        headers: None,
        metadata: None,
        tag: None,
        tags: None,
        attachments: None,
        settings: None,
    }
}

impl Default for SendMailRequest {
    fn default() -> (r: SendMailRequest)
        ensures
            r@ == empty_mail(),
    {
        let r = SendMailRequest {
            from: String::new(),
            to: Vec::new(),
            cc: None,
            bcc: None,
            reply_to: None,
            subject: String::new(),
            scheduled_at: None,
            html: None,
            text: None,
            route: None,
            headers: None,
            metadata: None,
            tag: None,
            tags: None,
            attachments: None,
            settings: None,
        };
        assert(strings_view(r.to) =~= seq![]);
        r
    }
}

impl Default for EmailSettings {
    fn default() -> (r: EmailSettings)
        ensures
            r@ == (SettingsView { track_opens: None, track_clicks: None, tls: None }),
    {
        EmailSettings { track_opens: None, track_clicks: None, tls: None }
    }
}

/// `list` with `item` appended, starting from an empty list when there is
/// none.
pub open spec fn push_or_start(list: Option<Seq<Seq<char>>>, item: Seq<char>) -> Option<Seq<Seq<char>>> {
    match list {
        Some(items) => Some(items.push(item)),
        None => Some(seq![item]),
    }
}

/// `map` with `key` set to `value`, starting from an empty map when there is
/// none.
pub open spec fn insert_or_start(
    map: Option<Map<Seq<char>, Seq<char>>>,
    key: Seq<char>,
    value: Seq<char>,
) -> Option<Map<Seq<char>, Seq<char>>> {
    match map {
        Some(m) => Some(m.insert(key, value)),
        None => Some(Map::<Seq<char>, Seq<char>>::empty().insert(key, value)),
    }
}

fn push_address(list: Option<Vec<String>>, item: &str) -> (r: Option<Vec<String>>)
    ensures
        opt_strings_view(r) == push_or_start(opt_strings_view(list), item@),
        opt_strings_view(r) == Some(
            match opt_strings_view(list) {
                Some(items) => items,
                None => seq![],
            }.push(item@),
        ),
{
    let mut items = match list {
        Some(v) => v,
        None => Vec::new(),
    };
    let ghost before = strings_view(items);
    items.push(item.to_owned());
    assert(strings_view(items) =~= before.push(item@));
    Some(items)
}

fn insert_entry(map: Option<StringMap>, key: &str, value: &str) -> (r: Option<StringMap>)
    ensures
        opt_map_view(r) == insert_or_start(opt_map_view(map), key@, value@),
        opt_map_view(r) == Some(
            match opt_map_view(map) {
                Some(m) => m,
                None => Map::<Seq<char>, Seq<char>>::empty(),
            }.insert(key@, value@),
        ),
{
    let mut m = match map {
        Some(m) => m,
        None => StringMap::new(),
    };
    m.insert(key.to_owned(), value.to_owned());
    Some(m)
}

/// The caller's headers of a send with the idempotency key `key`, if any.
pub open spec fn idempotency_headers(key: Option<Seq<char>>) -> Seq<(Seq<char>, Seq<char>)> {
    match key {
        Some(k) => seq![("idempotency-key"@, k)],
        None => seq![],
    }
}

impl<T> EmailClient<T> {
    /// A builder for one message, sent through this client.
    pub fn email(&self) -> (r: EmailBuilder<'_, T>)
        ensures
            r.client_spec() == *self,
            r.payload_spec() == empty_mail(),
            r.idempotency_key_spec() is None,
    {
        EmailBuilder::new(self)
    }

    /// The request that sends one message, `payload`, whose JSON
    /// serialization is `body`; refused when the message's tags are not
    /// valid.
    pub fn send(&self, payload: &SendMailRequest, body: String) -> (r: Result<HttpRequest, Error>)
        ensures
            match mail_tags_error(payload@) {
                Some(t) => is_tag_error(r, t),
                None => r matches Ok(req) && is_request(
                    req,
                    self.http_spec(),
                    "POST"@,
                    "/send"@,
                    seq![],
                    Some(body@),
                    seq![],
                ),
            },
    {
        match check_mail_tags(payload) {
            Ok(()) => Ok(self.http().post("/send", body)),
            Err(e) => Err(e),
        }
    }

    /// The request that sends a batch of messages, `payload`, whose JSON
    /// serialization (an array) is `body`; refused when a message's tags are
    /// not valid, with the error of the first such message.
    pub fn send_batch(&self, payload: &[SendMailRequest], body: String) -> (r: Result<HttpRequest, Error>)
        ensures
            match batch_tags_error(mail_views(payload@)) {
                Some(t) => is_tag_error(r, t),
                None => r matches Ok(req) && is_request(
                    req,
                    self.http_spec(),
                    "POST"@,
                    "/send/batch"@,
                    seq![],
                    Some(body@),
                    seq![],
                ),
            },
    {
        match check_batch_tags(payload) {
            Ok(()) => Ok(self.http().post("/send/batch", body)),
            Err(e) => Err(e),
        }
    }

    /// The request that sends a batch of messages, `payload`, whose JSON
    /// serialization is `body`, under the idempotency key `key`; refused when
    /// a message's tags are not valid, with the error of the first such
    /// message.
    pub fn send_batch_with_idempotency_key(&self, payload: &[SendMailRequest], body: String, key: &str) -> (r: Result<
        HttpRequest,
        Error,
    >)
        ensures
            match batch_tags_error(mail_views(payload@)) {
                Some(t) => is_tag_error(r, t),
                None => r matches Ok(req) && is_request(
                    req,
                    self.http_spec(),
                    "POST"@,
                    "/send/batch"@,
                    seq![],
                    Some(body@),
                    idempotency_headers(Some(key@)),
                ),
            },
    {
        match check_batch_tags(payload) {
            Ok(()) => {},
            Err(e) => return Err(e),
        }
        let mut headers = StringMap::new();
        headers.insert("idempotency-key".to_owned(), key.to_owned());
        proof {
            lemma_single_entry(headers.pairs(), "idempotency-key"@, key@);
        }
        Ok(self.http().post_with_headers("/send/batch", body, Some(&headers)))
    }
}

/// The characters a tag name may hold: ASCII letters and digits, `_` and `-`.
pub open spec fn is_tag_name_char(c: char) -> bool {
    ||| ('a' <= c && c <= 'z')
    ||| ('A' <= c && c <= 'Z')
    ||| ('0' <= c && c <= '9')
    ||| c == '_'
    ||| c == '-'
}

/// The prefix of the tag names that Lettermint keeps for itself.
pub const RESERVED_TAG_PREFIX: &'static str = "__LETTERMINT";

/// Whether `name` may name a tag: it is not empty, holds only tag name
/// characters, and does not start with the reserved prefix.
pub open spec fn tag_name_valid(name: Seq<char>) -> bool {
    &&& name.len() > 0
    &&& forall|i: int| 0 <= i < name.len() ==> is_tag_name_char(#[trigger] name[i])
    &&& !(name.len() >= RESERVED_TAG_PREFIX@.len() && name.take(
        RESERVED_TAG_PREFIX@.len() as int,
    ) == RESERVED_TAG_PREFIX@)
}

/// The error type of a message whose typed tags have the names `names` and
/// which has (`has_tag`) or has not a plain tag: typed tags beside a plain tag
/// conflict, a typed tag with an invalid name is invalid, and otherwise there
/// is no error.
pub open spec fn message_tags_error(names: Seq<Seq<char>>, has_tag: bool) -> Option<Seq<char>> {
    if has_tag && names.len() > 0 {
        Some("ConflictingMessageTags"@)
    } else if exists|i: int| 0 <= i < names.len() && !tag_name_valid(#[trigger] names[i]) {
        Some("InvalidMessageTag"@)
    } else {
        None
    }
}

/// The names of a list of tags.
pub open spec fn tag_names(tags: Seq<MessageTag>) -> Seq<Seq<char>> {
    Seq::new(tags.len(), |i: int| tags[i].name@)
}

/// The tag error of a message, if any.
pub open spec fn mail_tags_error(mail: MailView) -> Option<Seq<char>> {
    message_tags_error(
        match mail.tags {
            Some(tags) => Seq::new(tags.len(), |i: int| tags[i].0),
            None => seq![],
        },
        mail.tag is Some,
    )
}

/// The views of a list of messages.
pub open spec fn mail_views(mails: Seq<SendMailRequest>) -> Seq<MailView> {
    Seq::new(mails.len(), |i: int| mails[i]@)
}

/// The tag error of the first message of `mails` that has one, if any.
pub open spec fn batch_tags_error(mails: Seq<MailView>) -> Option<Seq<char>>
    decreases mails.len(),
{
    if mails.len() == 0 {
        None
    } else {
        match mail_tags_error(mails[0]) {
            Some(t) => Some(t),
            None => batch_tags_error(mails.drop_first()),
        }
    }
}

/// Whether `r` is the local validation error with the error type `t`.
pub open spec fn is_tag_error<V>(r: Result<V, Error>, t: Seq<char>) -> bool {
    r matches Err(Error::Validation { error_type, body }) && error_type@ == t && body is None
}

/// Whether `name` may name a tag.
fn check_tag_name(name: &str) -> (r: bool)
    ensures
        r == tag_name_valid(name@),
{
    let cs = chars_of(name);
    let n = cs.len();
    let mut i: usize = 0;
    while i < n
        invariant
            n == cs@.len(),
            cs@ == name@,
            i <= n,
            forall|j: int| 0 <= j < i ==> is_tag_name_char(#[trigger] cs@[j]),
        decreases n - i,
    {
        let c = cs[i];
        if !(('a' <= c && c <= 'z') || ('A' <= c && c <= 'Z') || ('0' <= c && c <= '9') || c == '_'
            || c == '-') {
            return false;
        }
        i = i + 1;
    }
    if n == 0 {
        return false;
    }
    let prefix = chars_of(RESERVED_TAG_PREFIX);
    if n >= prefix.len() {
        let head = sub_chars(cs.as_slice(), 0, prefix.len());
        assert(head@ == name@.take(prefix@.len() as int));
        if chars_eq(head.as_slice(), prefix.as_slice()) {
            return false;
        }
    }
    true
}

/// Checks the typed tags `tags` of a message that has (`has_tag`) or has not
/// a plain tag.
pub fn validate_message_tags(tags: &[MessageTag], has_tag: bool) -> (r: Result<(), Error>)
    ensures
        match message_tags_error(tag_names(tags@), has_tag) {
            Some(t) => is_tag_error(r, t),
            None => r is Ok,
        },
        r is Ok <==> !(has_tag && tags@.len() > 0) && forall|i: int|
            0 <= i < tags@.len() ==> tag_name_valid(#[trigger] tags@[i].name@),
        has_tag && tags@.len() > 0 ==> is_tag_error(r, "ConflictingMessageTags"@),
        !(has_tag && tags@.len() > 0) && (exists|i: int|
            0 <= i < tags@.len() && !tag_name_valid(#[trigger] tags@[i].name@)) ==> is_tag_error(
            r,
            "InvalidMessageTag"@,
        ),
{
    let ghost names = tag_names(tags@);
    if has_tag && tags.len() > 0 {
        return Err(Error::Validation { error_type: "ConflictingMessageTags".to_owned(), body: None });
    }
    let n = tags.len();
    let mut i: usize = 0;
    while i < n
        invariant
            n == tags@.len(),
            names == tag_names(tags@),
            !(has_tag && n > 0),
            i <= n,
            forall|j: int| 0 <= j < i ==> tag_name_valid(#[trigger] names[j]),
        decreases n - i,
    {
        if !check_tag_name(tags[i].name.as_str()) {
            assert(!tag_name_valid(names[i as int]));
            assert(names.len() == n);
            assert(message_tags_error(names, has_tag) == Some("InvalidMessageTag"@));
            return Err(Error::Validation { error_type: "InvalidMessageTag".to_owned(), body: None });
        }
        i = i + 1;
    }
    assert forall|j: int| 0 <= j < tags@.len() implies tag_name_valid(#[trigger] tags@[j].name@) by {
        assert(names[j] == tags@[j].name@);
    }
    Ok(())
}

fn check_mail_tags(payload: &SendMailRequest) -> (r: Result<(), Error>)
    ensures
        match mail_tags_error(payload@) {
            Some(t) => is_tag_error(r, t),
            None => r is Ok,
        },
{
    let has_tag = payload.tag.is_some();
    match &payload.tags {
        Some(tags) => {
            let r = validate_message_tags(tags.as_slice(), has_tag);
            assert(tag_names(tags@) =~= Seq::new(
                opt_tags_view(payload.tags)->0.len(),
                |i: int| opt_tags_view(payload.tags)->0[i].0,
            ));
            r
        },
        None => {
            let empty: Vec<MessageTag> = Vec::new();
            let r = validate_message_tags(empty.as_slice(), has_tag);
            assert(tag_names(empty@) =~= seq![]);
            r
        },
    }
}

fn check_batch_tags(payload: &[SendMailRequest]) -> (r: Result<(), Error>)
    ensures
        match batch_tags_error(mail_views(payload@)) {
            Some(t) => is_tag_error(r, t),
            None => r is Ok,
        },
{
    let n = payload.len();
    let mut i: usize = 0;
    assert(mail_views(payload@).skip(0) == mail_views(payload@));
    while i < n
        invariant
            n == payload@.len(),
            i <= n,
            batch_tags_error(mail_views(payload@)) == batch_tags_error(
                mail_views(payload@).skip(i as int),
            ),
        decreases n - i,
    {
        let ghost rest = mail_views(payload@).skip(i as int);
        assert(rest[0] == payload@[i as int]@);
        assert(rest.drop_first() == mail_views(payload@).skip(i + 1));
        match check_mail_tags(&payload[i]) {
            Ok(()) => {},
            Err(e) => return Err(e),
        }
        i = i + 1;
    }
    assert(mail_views(payload@).skip(n as int).len() == 0);
    Ok(())
}

impl MessageTag {
    /// A tag named `name` with the value `value`; refused when the name is not
    /// valid.
    pub fn new(name: &str, value: &str) -> (r: Result<MessageTag, Error>)
        ensures
            tag_name_valid(name@) ==> (r matches Ok(tag) && tag.name@ == name@ && tag.value@ == value@),
            !tag_name_valid(name@) ==> is_tag_error(r, "InvalidMessageTag"@),
    {
        if check_tag_name(name) {
            Ok(MessageTag { name: name.to_owned(), value: value.to_owned() })
        } else {
            Err(Error::Validation { error_type: "InvalidMessageTag".to_owned(), body: None })
        }
    }
}

/// Builds a message step by step.
pub struct EmailBuilder<'a, T> {
    client: &'a EmailClient<T>,
    payload: SendMailRequest,
    idempotency_key: Option<String>,
}

impl<'a, T> EmailBuilder<'a, T> {
    /// The client the message will be sent through.
    pub closed spec fn client_spec(&self) -> EmailClient<T> {
        *self.client
    }

    /// The message so far.
    pub closed spec fn payload_spec(&self) -> MailView {
        self.payload@
    }

    /// The idempotency key so far.
    pub closed spec fn idempotency_key_spec(&self) -> Option<Seq<char>> {
        opt_view(self.idempotency_key)
    }

    /// An empty message for `client`.
    pub fn new(client: &'a EmailClient<T>) -> (r: EmailBuilder<'a, T>)
        ensures
            r.client_spec() == *client,
            r.payload_spec() == empty_mail(),
            r.idempotency_key_spec() is None,
    {
        EmailBuilder { client, payload: SendMailRequest::default(), idempotency_key: None }
    }

    /// The client the message will be sent through.
    pub fn client(&self) -> (r: &'a EmailClient<T>)
        ensures
            *r == self.client_spec(),
    {
        self.client
    }

    /// Sets the sender.
    pub fn from(self, email: &str) -> (r: EmailBuilder<'a, T>)
        ensures
            r.client_spec() == self.client_spec(),
            r.idempotency_key_spec() == self.idempotency_key_spec(),
            r.payload_spec() == (MailView { from: email@, ..self.payload_spec() }),
    {
        let mut b = self;
        b.payload.from = email.to_owned();
        b
    }

    /// Adds a recipient.
    pub fn to(self, email: &str) -> (r: EmailBuilder<'a, T>)
        ensures
            r.client_spec() == self.client_spec(),
            r.idempotency_key_spec() == self.idempotency_key_spec(),
            r.payload_spec() == (MailView { to: self.payload_spec().to.push(email@), ..self.payload_spec() }),
    {
        let mut b = self;
        let ghost before = strings_view(b.payload.to);
        b.payload.to.push(email.to_owned());
        assert(strings_view(b.payload.to) =~= before.push(email@));
        b
    }

    /// Adds a recipient in copy.
    pub fn cc(self, email: &str) -> (r: EmailBuilder<'a, T>)
        ensures
            r.client_spec() == self.client_spec(),
            r.idempotency_key_spec() == self.idempotency_key_spec(),
            r.payload_spec() == (MailView { cc: push_or_start(self.payload_spec().cc, email@), ..self.payload_spec() }),
            r.payload_spec().cc == Some(
                match self.payload_spec().cc {
                    Some(list) => list,
                    None => seq![],
                }.push(email@),
            ),
    {
        let mut b = self;
        let list = b.payload.cc.take();
        b.payload.cc = push_address(list, email);
        b
    }

    /// Adds a recipient in blind copy.
    pub fn bcc(self, email: &str) -> (r: EmailBuilder<'a, T>)
        ensures
            r.client_spec() == self.client_spec(),
            r.idempotency_key_spec() == self.idempotency_key_spec(),
            r.payload_spec() == (MailView { bcc: push_or_start(self.payload_spec().bcc, email@), ..self.payload_spec() }),
            r.payload_spec().bcc == Some(
                match self.payload_spec().bcc {
                    Some(list) => list,
                    None => seq![],
                }.push(email@),
            ),
    {
        let mut b = self;
        let list = b.payload.bcc.take();
        b.payload.bcc = push_address(list, email);
        b
    }

    /// Adds a reply-to address.
    pub fn reply_to(self, email: &str) -> (r: EmailBuilder<'a, T>)
        ensures
            r.client_spec() == self.client_spec(),
            r.idempotency_key_spec() == self.idempotency_key_spec(),
            r.payload_spec() == (MailView {
                reply_to: push_or_start(self.payload_spec().reply_to, email@),
                ..self.payload_spec()
            }),
            r.payload_spec().reply_to == Some(
                match self.payload_spec().reply_to {
                    Some(list) => list,
                    None => seq![],
                }.push(email@),
            ),
    {
        let mut b = self;
        let list = b.payload.reply_to.take();
        b.payload.reply_to = push_address(list, email);
        b
    }

    /// Sets the subject.
    pub fn subject(self, subject: &str) -> (r: EmailBuilder<'a, T>)
        ensures
            r.client_spec() == self.client_spec(),
            r.idempotency_key_spec() == self.idempotency_key_spec(),
            r.payload_spec() == (MailView { subject: subject@, ..self.payload_spec() }),
    {
        let mut b = self;
        b.payload.subject = subject.to_owned();
        b
    }

    /// Schedules the message for a later time.
    pub fn scheduled_at(self, scheduled_at: &str) -> (r: EmailBuilder<'a, T>)
        ensures
            r.client_spec() == self.client_spec(),
            r.idempotency_key_spec() == self.idempotency_key_spec(),
            r.payload_spec() == (MailView { scheduled_at: Some(scheduled_at@), ..self.payload_spec() }),
    {
        let mut b = self;
        b.payload.scheduled_at = Some(scheduled_at.to_owned());
        b
    }

    /// Sets the HTML body.
    pub fn html(self, html: &str) -> (r: EmailBuilder<'a, T>)
        ensures
            r.client_spec() == self.client_spec(),
            r.idempotency_key_spec() == self.idempotency_key_spec(),
            r.payload_spec() == (MailView { html: Some(html@), ..self.payload_spec() }),
    {
        let mut b = self;
        b.payload.html = Some(html.to_owned());
        b
    }

    /// Sets the text body.
    pub fn text(self, text: &str) -> (r: EmailBuilder<'a, T>)
        ensures
            r.client_spec() == self.client_spec(),
            r.idempotency_key_spec() == self.idempotency_key_spec(),
            r.payload_spec() == (MailView { text: Some(text@), ..self.payload_spec() }),
    {
        let mut b = self;
        b.payload.text = Some(text.to_owned());
        b
    }

    /// Sets the route the message is sent on.
    pub fn route(self, route: &str) -> (r: EmailBuilder<'a, T>)
        ensures
            r.client_spec() == self.client_spec(),
            r.idempotency_key_spec() == self.idempotency_key_spec(),
            r.payload_spec() == (MailView { route: Some(route@), ..self.payload_spec() }),
    {
        let mut b = self;
        b.payload.route = Some(route.to_owned());
        b
    }

    /// Sets a header of the message.
    pub fn header(self, key: &str, value: &str) -> (r: EmailBuilder<'a, T>)
        ensures
            r.client_spec() == self.client_spec(),
            r.idempotency_key_spec() == self.idempotency_key_spec(),
            r.payload_spec() == (MailView {
                headers: insert_or_start(self.payload_spec().headers, key@, value@),
                ..self.payload_spec()
            }),
            r.payload_spec().headers == Some(
                match self.payload_spec().headers {
                    Some(m) => m,
                    None => Map::<Seq<char>, Seq<char>>::empty(),
                }.insert(key@, value@),
            ),
    {
        let mut b = self;
        let map = b.payload.headers.take();
        b.payload.headers = insert_entry(map, key, value);
        b
    }

    /// Sets a metadata entry of the message.
    pub fn metadata(self, key: &str, value: &str) -> (r: EmailBuilder<'a, T>)
        ensures
            r.client_spec() == self.client_spec(),
            r.idempotency_key_spec() == self.idempotency_key_spec(),
            r.payload_spec() == (MailView {
                metadata: insert_or_start(self.payload_spec().metadata, key@, value@),
                ..self.payload_spec()
            }),
            r.payload_spec().metadata == Some(
                match self.payload_spec().metadata {
                    Some(m) => m,
                    None => Map::<Seq<char>, Seq<char>>::empty(),
                }.insert(key@, value@),
            ),
    {
        let mut b = self;
        let map = b.payload.metadata.take();
        b.payload.metadata = insert_entry(map, key, value);
        b
    }

    /// Sets the tag of the message.
    pub fn tag(self, tag: &str) -> (r: EmailBuilder<'a, T>)
        ensures
            r.client_spec() == self.client_spec(),
            r.idempotency_key_spec() == self.idempotency_key_spec(),
            r.payload_spec() == (MailView { tag: Some(tag@), ..self.payload_spec() }),
    {
        let mut b = self;
        b.payload.tag = Some(tag.to_owned());
        b
    }

    /// Sets the typed tags of the message, replacing earlier ones.
    pub fn tags(self, tags: Vec<MessageTag>) -> (r: EmailBuilder<'a, T>)
        ensures
            r.client_spec() == self.client_spec(),
            r.idempotency_key_spec() == self.idempotency_key_spec(),
            r.payload_spec() == (MailView { tags: opt_tags_view(Some(tags)), ..self.payload_spec() }),
    {
        let mut b = self;
        b.payload.tags = Some(tags);
        b
    }

    /// Attaches a file.
    pub fn attach(self, filename: &str, content: &str) -> (r: EmailBuilder<'a, T>)
        ensures
            r.client_spec() == self.client_spec(),
            r.idempotency_key_spec() == self.idempotency_key_spec(),
            r.payload_spec() == (MailView {
                attachments: Some(
                    match self.payload_spec().attachments {
                        Some(list) => list,
                        None => seq![],
                    }.push(
                        AttachmentView {
                            filename: filename@,
                            content: content@,
                            content_type: None,
                            content_id: None,
                        },
                    ),
                ),
                ..self.payload_spec()
            }),
    {
        self.attach_with_options(filename, content, None, None)
    }

    /// Attaches a file with a content id (for inline use) and a content type.
    pub fn attach_with_options(
        self,
        filename: &str,
        content: &str,
        content_id: Option<String>,
        content_type: Option<String>,
    ) -> (r: EmailBuilder<'a, T>)
        ensures
            r.client_spec() == self.client_spec(),
            r.idempotency_key_spec() == self.idempotency_key_spec(),
            r.payload_spec() == (MailView {
                attachments: Some(
                    match self.payload_spec().attachments {
                        Some(list) => list,
                        None => seq![],
                    }.push(
                        AttachmentView {
                            filename: filename@,
                            content: content@,
                            content_type: opt_view(content_type),
                            content_id: opt_view(content_id),
                        },
                    ),
                ),
                ..self.payload_spec()
            }),
    {
        let mut b = self;
        let attachment = EmailAttachment {
            filename: filename.to_owned(),
            content: content.to_owned(),
            content_type,
            content_id,
        };
        let mut list = match b.payload.attachments.take() {
            Some(v) => v,
            None => Vec::new(),
        };
        let ghost before = list@;
        list.push(attachment);
        proof {
            let old_view = match self.payload_spec().attachments {
                Some(l) => l,
                None => seq![],
            };
            assert(Seq::new(list@.len(), |i: int| list@[i]@) =~= old_view.push(attachment@));
        }
        b.payload.attachments = Some(list);
        b
    }

    /// Sets the tracking and TLS settings.
    pub fn settings(self, settings: EmailSettings) -> (r: EmailBuilder<'a, T>)
        ensures
            r.client_spec() == self.client_spec(),
            r.idempotency_key_spec() == self.idempotency_key_spec(),
            r.payload_spec() == (MailView { settings: Some(settings@), ..self.payload_spec() }),
    {
        let mut b = self;
        b.payload.settings = Some(settings);
        b
    }

    /// Sets the idempotency key of the send.
    pub fn idempotency_key(self, key: &str) -> (r: EmailBuilder<'a, T>)
        ensures
            r.client_spec() == self.client_spec(),
            r.payload_spec() == self.payload_spec(),
            r.idempotency_key_spec() == Some(key@),
    {
        let mut b = self;
        b.idempotency_key = Some(key.to_owned());
        b
    }

    /// The message so far.
    pub fn payload(&self) -> (r: &SendMailRequest)
        ensures
            r@ == self.payload_spec(),
    {
        &self.payload
    }

    /// The request that sends the message, whose JSON serialization is
    /// `body`, to `/send`: with the idempotency key, when one was set, as the
    /// `idempotency-key` header.
    pub fn send(self, body: String) -> (r: HttpRequest)
        ensures
            is_request(
                r,
                self.client_spec().http_spec(),
                "POST"@,
                "/send"@,
                seq![],
                Some(body@),
                idempotency_headers(self.idempotency_key_spec()),
            ),
    {
        let mut headers = StringMap::new();
        match self.idempotency_key {
            Some(key) => {
                let ghost k = key@;
                headers.insert("idempotency-key".to_owned(), key);
                proof {
                    lemma_single_entry(headers.pairs(), "idempotency-key"@, k);
                }
            },
            None => {},
        }
        self.client.http().post_with_headers("/send", body, Some(&headers))
    }
}

} // verus!

use vstd::prelude::*;
use unicode_segmentation::UnicodeSegmentation;
use rand::Rng;

verus! {

/// Longest subscriber name accepted, in extended grapheme clusters.
pub const MAX_NAME_GRAPHEMES: usize = 256;

/// Length of a subscription token, in characters.
pub const TOKEN_LEN: usize = 25;

/// The number of extended grapheme clusters in a string.
pub uninterp spec fn grapheme_count_of(s: Seq<char>) -> nat;

/// Relies on unicode-segmentation's `graphemes(true)`, counted: the number
/// of extended grapheme clusters of `s`.
#[verifier::external_body]
fn grapheme_count(s: &str) -> (r: usize)
    ensures
        r as nat == grapheme_count_of(s@),
{
    s.graphemes(true).count()
}

/// Unicode White_Space, the set that `char::is_whitespace` and `str::trim` use.
pub open spec fn is_unicode_whitespace(c: char) -> bool {
    ('\u{9}' <= c && c <= '\u{d}') || c == ' ' || c == '\u{85}' || c == '\u{a0}' || c
        == '\u{1680}' || ('\u{2000}' <= c && c <= '\u{200a}') || c == '\u{2028}' || c
        == '\u{2029}' || c == '\u{202f}' || c == '\u{205f}' || c == '\u{3000}'
}

/// Characters that a subscriber name may not hold.
pub open spec fn is_forbidden_name_char(c: char) -> bool {
    c == '/' || c == '(' || c == ')' || c == '"' || c == '<' || c == '>' || c == '\\' || c == '{'
        || c == '}'
}

/// Empty once surrounding whitespace is trimmed.
pub open spec fn is_empty_or_whitespace(s: Seq<char>) -> bool {
    forall|i: int| 0 <= i < s.len() ==> is_unicode_whitespace(#[trigger] s[i])
}

pub open spec fn has_forbidden_char(s: Seq<char>) -> bool {
    exists|i: int| 0 <= i < s.len() && is_forbidden_name_char(#[trigger] s[i])
}

/// The name rules, given the name's number of grapheme clusters.
pub open spec fn name_rules(s: Seq<char>, graphemes: nat) -> bool {
    !is_empty_or_whitespace(s) && graphemes <= MAX_NAME_GRAPHEMES && !has_forbidden_char(s)
}

/// Applies the name rules to `s`, whose grapheme cluster count is `graphemes`.
pub fn name_is_valid_given(s: &str, graphemes: usize) -> (r: bool)
    ensures
        r == name_rules(s@, graphemes as nat),
{
    let n = s.unicode_len();
    let mut blank = true;
    let mut forbidden = false;
    let mut i: usize = 0;
    while i < n
        invariant
            n == s@.len(),
            i <= n,
            blank == (forall|j: int| 0 <= j < i ==> is_unicode_whitespace(#[trigger] s@[j])),
            forbidden == (exists|j: int| 0 <= j < i && is_forbidden_name_char(#[trigger] s@[j])),
        decreases n - i,
    {
        let c = s.get_char(i);
        if !(('\u{9}' <= c && c <= '\u{d}') || c == ' ' || c == '\u{85}' || c == '\u{a0}' || c
            == '\u{1680}' || ('\u{2000}' <= c && c <= '\u{200a}') || c == '\u{2028}' || c
            == '\u{2029}' || c == '\u{202f}' || c == '\u{205f}' || c == '\u{3000}') {
            blank = false;
        }
        if c == '/' || c == '(' || c == ')' || c == '"' || c == '<' || c == '>' || c == '\\' || c
            == '{' || c == '}' {
            assert(is_forbidden_name_char(s@[i as int]));
            forbidden = true;
        }
        i = i + 1;
    }
    !(blank || graphemes > MAX_NAME_GRAPHEMES || forbidden)
}

/// Whether `s` is an acceptable subscriber name: not empty or whitespace
/// only, at most 256 grapheme clusters, and none of `/ ( ) " < > \ { }`.
pub fn is_valid_name(s: &str) -> (r: bool)
    ensures
        r == name_rules(s@, grapheme_count_of(s@)),
{
    let graphemes = grapheme_count(s);
    name_is_valid_given(s, graphemes)
}

/// A subscriber name that passed the name rules.
#[derive(Debug)]
pub struct SubscriberName {
    value: String,
}

impl View for SubscriberName {
    type V = Seq<char>;

    closed spec fn view(&self) -> Seq<char> {
        self.value@
    }
}

/// The message that rejects an invalid name.
pub open spec fn invalid_name_message(s: Seq<char>) -> Seq<char> {
    s + " is not a valid subscriber name."@
}

impl SubscriberName {
    #[verifier::type_invariant]
    spec fn inv(self) -> bool {
        name_rules(self.value@, grapheme_count_of(self.value@))
    }

    /// Accepts `s` as a name when it meets the name rules.
    pub fn parse(s: String) -> (r: Result<SubscriberName, String>)
        ensures
            r is Ok <==> name_rules(s@, grapheme_count_of(s@)),
            r matches Ok(n) ==> n@ == s@,
            r matches Err(m) ==> m@ == invalid_name_message(s@),
    {
        if is_valid_name(s.as_str()) {
            Ok(SubscriberName { value: s })
        } else {
            let mut m = s.clone();
            m.append(" is not a valid subscriber name.");
            Err(m)
        }
    }

    pub fn as_str(&self) -> (r: &str)
        ensures
            r@ == self@,
            name_rules(r@, grapheme_count_of(r@)),
    {
        proof {
            use_type_invariant(self);
        }
        self.value.as_str()
    }
}

/// The subscription form.
#[derive(Debug)]
pub struct FormData {
    pub email: String,
    pub name: String,
}

/// A subscriber about to be recorded.
#[derive(Debug)]
pub struct NewSubscriber {
    pub email: String,
    pub name: SubscriberName,
}

impl NewSubscriber {
    /// Builds a new subscriber from the form, checking the name.
    pub fn try_from(value: FormData) -> (r: Result<NewSubscriber, String>)
        ensures
            r is Ok <==> name_rules(value.name@, grapheme_count_of(value.name@)),
            r matches Ok(n) ==> n.email@ == value.email@ && n.name@ == value.name@,
            r matches Err(m) ==> m@ == invalid_name_message(value.name@),
    {
        let FormData { email, name } = value;
        let name = SubscriberName::parse(name)?;
        Ok(NewSubscriber { email, name })
    }
}

/// Why a subscription failed.
#[derive(Debug)]
pub enum SubscribeError {
    /// The form was rejected; the message says why.
    ValidationError(String),
    /// Something else went wrong; the message says what.
    UnexpectedError(String),
}

/// HTTP status of a rejected request.
pub const BAD_REQUEST: u16 = 400;

/// HTTP status of an internal failure.
pub const INTERNAL_SERVER_ERROR: u16 = 500;

impl SubscribeError {
    /// The HTTP status that reports the error.
    pub fn status_code(&self) -> (r: u16)
        ensures
            r == match self {
                SubscribeError::ValidationError(_) => BAD_REQUEST,
                SubscribeError::UnexpectedError(_) => INTERNAL_SERVER_ERROR,
            },
    {
        match self {
            SubscribeError::ValidationError(_) => BAD_REQUEST,
            SubscribeError::UnexpectedError(_) => INTERNAL_SERVER_ERROR,
        }
    }
}

/// The text of an error followed by its chain of causes.
pub open spec fn chain_text(top: Seq<char>, causes: Seq<Seq<char>>) -> Seq<char>
    decreases causes.len(),
{
    if causes.len() == 0 {
        top + "\n\n"@
    } else {
        chain_text(top, causes.drop_last()) + "Caused by:\n\t"@ + causes.last() + "\n"@
    }
}

/// Writes `top` on a line followed by a blank line, then each cause, in
/// order, as `Caused by:` and the cause on a tab-indented line.
pub fn error_chain_fmt(top: &str, causes: &Vec<String>) -> (r: String)
    ensures
        r@ == chain_text(top@, causes@.map_values(|c: String| c@)),
{
    let ghost cs = causes@.map_values(|c: String| c@);
    let mut out = String::from_str(top);
    out.append("\n\n");
    let mut i: usize = 0;
    while i < causes.len()
        invariant
            i <= causes@.len(),
            cs == causes@.map_values(|c: String| c@),
            out@ == chain_text(top@, cs.subrange(0, i as int)),
        decreases causes@.len() - i,
    {
        let ghost pre = cs.subrange(0, i + 1);
        assert(pre.drop_last() =~= cs.subrange(0, i as int));
        out.append("Caused by:\n\t");
        out.append(causes[i].as_str());
        out.append("\n");
        i = i + 1;
    }
    assert(cs.subrange(0, cs.len() as int) =~= cs);
    out
}

/// The error raised when a subscription token cannot be stored.
#[derive(Debug)]
pub struct StoreTokenError {
    pub cause: String,
}

impl StoreTokenError {
    /// The message that reports the failure; the cause is kept apart.
    pub fn message(&self) -> (r: &'static str)
        ensures
            r@ == store_token_message(),
    {
        "A database error was encountered while trying to store a subscription token."
    }
}

pub open spec fn store_token_message() -> Seq<char> {
    "A database error was encountered while trying to store a subscription token."@
}

/// ASCII letters and digits: `a-z` (97 to 122), `A-Z` (65 to 90), `0-9` (48 to 57).
pub open spec fn is_alphanumeric_byte(b: u8) -> bool {
    (97 <= b && b <= 122) || (65 <= b && b <= 90) || (48 <= b && b <= 57)
}

/// Relies on rand's `Alphanumeric` distribution, sampled from the thread
/// generator: one of the 62 bytes `A-Z`, `a-z`, `0-9`, at random.
#[verifier::external_body]
fn random_alphanumeric() -> (r: u8)
    ensures
        is_alphanumeric_byte(r),
{
    rand::thread_rng().sample(rand::distributions::Alphanumeric)
}

/// Relies on std's `String::from_utf8`: ASCII bytes are valid UTF-8, and
/// each byte becomes the character of the same code.
#[verifier::external_body]
fn ascii_to_string(bytes: Vec<u8>) -> (r: String)
    requires
        forall|i: int| 0 <= i < bytes@.len() ==> bytes@[i] < 128,
    ensures
        r@ == bytes@.map_values(|b: u8| b as char),
{
    String::from_utf8(bytes).unwrap_or_default()
}

/// A random case-sensitive token of 25 ASCII letters and digits.
pub fn generate_subscription_token() -> (r: String)
    ensures
        r@.len() == TOKEN_LEN,
        forall|i: int| 0 <= i < r@.len() ==> is_alphanumeric_byte(#[trigger] r@[i] as u8),
{
    let mut bytes: Vec<u8> = Vec::new();
    let mut i: usize = 0;
    while i < TOKEN_LEN
        invariant
            i <= TOKEN_LEN,
            bytes@.len() == i,
            forall|j: int| 0 <= j < i ==> is_alphanumeric_byte(#[trigger] bytes@[j]),
        decreases TOKEN_LEN - i,
    {
        bytes.push(random_alphanumeric());
        i = i + 1;
    }
    let ghost b = bytes@;
    let r = ascii_to_string(bytes);
    assert forall|i: int| 0 <= i < r@.len() implies is_alphanumeric_byte(#[trigger] r@[i] as u8) by {
        assert(r@[i] == b[i] as char);
        assert(is_alphanumeric_byte(b[i]));
    }
    r
}

/// The confirmation e-mail sent to a new subscriber.
#[derive(Debug)]
pub struct ConfirmationEmail {
    pub link: String,
    pub html_body: String,
    pub plain_body: String,
}

/// The link that confirms a subscription.
pub open spec fn confirmation_link(base_url: Seq<char>, token: Seq<char>) -> Seq<char> {
    base_url + "/subscriptions/confirm?subscription_token="@ + token
}

pub open spec fn plain_confirmation(link: Seq<char>) -> Seq<char> {
    "Welcome to our newsletter!\nVisit "@ + link + " to confirm your subscription."@
}

pub open spec fn html_confirmation(link: Seq<char>) -> Seq<char> {
    "Welcome to our newsletter!<br />Click <a href=\""@ + link
        + "\">here</a> to confirm your subscription."@
}

/// The subject of the confirmation e-mail.
pub fn confirmation_subject() -> (r: &'static str)
    ensures
        r@ == "Welcome!"@,
{
    "Welcome!"
}

/// The confirmation link for `subscription_token` under `base_url`, and the
/// HTML and plain-text bodies that carry it.
pub fn confirmation_email(base_url: &str, subscription_token: &str) -> (r: ConfirmationEmail)
    ensures
        r.link@ == confirmation_link(base_url@, subscription_token@),
        r.plain_body@ == plain_confirmation(r.link@),
        r.html_body@ == html_confirmation(r.link@),
{
    let mut link = String::from_str(base_url);
    link.append("/subscriptions/confirm?subscription_token=");
    link.append(subscription_token);
    let mut plain_body = String::from_str("Welcome to our newsletter!\nVisit ");
    plain_body.append(link.as_str());
    plain_body.append(" to confirm your subscription.");
    let mut html_body = String::from_str("Welcome to our newsletter!<br />Click <a href=\"");
    html_body.append(link.as_str());
    html_body.append("\">here</a> to confirm your subscription.");
    ConfirmationEmail { link, html_body, plain_body }
}

} // verus!

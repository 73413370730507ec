use vstd::prelude::*;
use vstd::utf8::{decode_utf8, valid_utf8};

verus! {

/// Unicode's White_Space property, the one `char::is_whitespace` tests.
pub open spec fn is_white_space(c: char) -> bool {
    let u = c as u32;
    ||| 0x09 <= u <= 0x0d
    ||| u == 0x20
    ||| u == 0x85
    ||| u == 0xa0
    ||| u == 0x1680
    ||| 0x2000 <= u <= 0x200a
    ||| u == 0x2028
    ||| u == 0x2029
    ||| u == 0x202f
    ||| u == 0x205f
    ||| u == 0x3000
}

/// `s` with its longest run of trailing white space removed.
pub open spec fn trim_end_ws(s: Seq<char>) -> Seq<char>
    decreases s.len(),
{
    if s.len() > 0 && is_white_space(s.last()) {
        trim_end_ws(s.drop_last())
    } else {
        s
    }
}

/// The line terminators and blanks that clients leave at the end of a line.
pub open spec fn is_line_padding(c: char) -> bool {
    c == '\r' || c == '\t' || c == '\n' || c == ' '
}

/// What `String::from_utf8_lossy` makes of a byte string.
pub uninterp spec fn utf8_lossy(b: Seq<u8>) -> Seq<char>;

/// Relies on `str::trim_end`: it drops the trailing characters that have the
/// White_Space property, and nothing else.
#[verifier::external_body]
fn trim_end(s: &str) -> (r: String)
    ensures
        r@ == trim_end_ws(s@),
{
    s.trim_end().to_string()
}

/// Relies on `String::from_utf8_lossy`: valid UTF-8 decodes as it is, and any
/// other byte string decodes to the same text every time.
#[verifier::external_body]
fn decode_lossy(b: &[u8]) -> (r: String)
    ensures
        r@ == utf8_lossy(b@),
        valid_utf8(b@) ==> r@ == decode_utf8(b@),
{
    String::from_utf8_lossy(b).into_owned()
}

/// A chat line as it travels between client and server: the text without
/// trailing white space, sent with exactly one line feed after it.
///
/// `len` and `text` speak of the text alone; `wire` adds the line feed.
#[derive(Debug)]
pub struct ServerFriendlyString {
    text: String,
}

impl View for ServerFriendlyString {
    type V = Seq<char>;

    /// The text, without the line feed.
    closed spec fn view(&self) -> Seq<char> {
        self.text@
    }
}

impl ServerFriendlyString {
    #[verifier::type_invariant]
    spec fn trimmed(&self) -> bool {
        trim_end_ws(self.text@) == self.text@
    }

    /// Trims the trailing white space off `value`.
    pub fn trimmed_from(value: &str) -> (r: ServerFriendlyString)
        ensures
            r@ == trim_end_ws(value@),
    {
        let text = trim_end(value);
        proof {
            lemma_trim_end_ws_idempotent(value@);
        }
        ServerFriendlyString { text }
    }

    /// The text of one line read off a connection: its bytes decoded as
    /// UTF-8, invalid sequences replaced, then trimmed.
    pub fn from_bytes(line: &[u8]) -> (r: ServerFriendlyString)
        ensures
            r@ == trim_end_ws(utf8_lossy(line@)),
            valid_utf8(line@) ==> r@ == trim_end_ws(decode_utf8(line@)),
    {
        let decoded = decode_lossy(line);
        ServerFriendlyString::trimmed_from(decoded.as_str())
    }

    /// The length in bytes of the text, the line feed not counted.
    pub fn len(&self) -> (n: usize)
        ensures
            n == vstd::utf8::encode_utf8(self@).len() as usize,
    {
        self.text.as_str().len()
    }

    /// The text as it is shown, without the line feed.
    pub fn text(&self) -> (s: String)
        ensures
            s@ == self@,
    {
        self.text.clone()
    }

    /// The wire form: the text followed by one line feed.
    pub fn wire(&self) -> (s: String)
        ensures
            s@ == self@.push('\n'),
            s@.len() < 2 || s@[s@.len() - 2] != '\n',
    {
        proof {
            use_type_invariant(self);
            lemma_trimmed_ends_clean(self@);
            reveal_strlit("\n");
        }
        let mut s = self.text.clone();
        s.append("\n");
        proof {
            assert(s@ =~= self@.push('\n'));
        }
        s
    }
}

impl Clone for ServerFriendlyString {
    fn clone(&self) -> (r: ServerFriendlyString)
        ensures
            r@ == self@,
    {
        proof {
            use_type_invariant(self);
        }
        ServerFriendlyString { text: self.text.clone() }
    }
}

impl From<&str> for ServerFriendlyString {
    fn from(value: &str) -> (r: ServerFriendlyString)
        ensures
            r@ == trim_end_ws(value@),
    {
        ServerFriendlyString::trimmed_from(value)
    }
}

impl vstd::std_specs::convert::FromSpecImpl<&str> for ServerFriendlyString {
    open spec fn obeys_from_spec() -> bool {
        false
    }

    open spec fn from_spec(v: &str) -> ServerFriendlyString {
        arbitrary()
    }
}

impl From<String> for ServerFriendlyString {
    fn from(value: String) -> (r: ServerFriendlyString)
        ensures
            r@ == trim_end_ws(value@),
    {
        ServerFriendlyString::trimmed_from(value.as_str())
    }
}

impl vstd::std_specs::convert::FromSpecImpl<String> for ServerFriendlyString {
    open spec fn obeys_from_spec() -> bool {
        false
    }

    open spec fn from_spec(v: String) -> ServerFriendlyString {
        arbitrary()
    }
}

/// Trimming a second time changes nothing.
pub proof fn lemma_trim_end_ws_idempotent(s: Seq<char>)
    ensures
        trim_end_ws(trim_end_ws(s)) == trim_end_ws(s),
        trim_end_ws(s).len() == 0 || !is_white_space(trim_end_ws(s).last()),
    decreases s.len(),
{
    if s.len() > 0 && is_white_space(s.last()) {
        lemma_trim_end_ws_idempotent(s.drop_last());
    }
}

/// Any mix of carriage returns, tabs, line feeds and spaces after a text is
/// stripped, and the text before it is kept whole, as long as that text does
/// not itself end in white space.
pub proof fn lemma_line_padding_stripped(text: Seq<char>, padding: Seq<char>)
    requires
        text.len() == 0 || !is_white_space(text.last()),
        forall|i: int| 0 <= i < padding.len() ==> is_line_padding(#[trigger] padding[i]),
    ensures
        trim_end_ws(text + padding) == text,
    decreases padding.len(),
{
    if padding.len() > 0 {
        assert((text + padding).drop_last() =~= text + padding.drop_last());
        assert((text + padding).last() == padding[padding.len() - 1]);
        lemma_line_padding_stripped(text, padding.drop_last());
    } else {
        assert(text + padding =~= text);
    }
}

/// Trimming keeps a prefix of the input.
pub proof fn lemma_trim_end_ws_prefix(s: Seq<char>)
    ensures
        trim_end_ws(s).len() <= s.len(),
        trim_end_ws(s) == s.take(trim_end_ws(s).len() as int),
    decreases s.len(),
{
    if s.len() > 0 && is_white_space(s.last()) {
        lemma_trim_end_ws_prefix(s.drop_last());
        assert(s.drop_last().take(trim_end_ws(s).len() as int) =~= s.take(
            trim_end_ws(s).len() as int,
        ));
    } else {
        assert(s.take(s.len() as int) =~= s);
    }
}

/// A text that trimming leaves alone does not end in white space.
pub proof fn lemma_trimmed_ends_clean(s: Seq<char>)
    requires
        trim_end_ws(s) == s,
    ensures
        s.len() == 0 || !is_white_space(s.last()),
{
    if s.len() > 0 && is_white_space(s.last()) {
        lemma_trim_end_ws_prefix(s.drop_last());
    }
}

} // verus!

use crate::error::Error;
use vstd::prelude::*;

verus! {

/// Column width that rendered post text is wrapped to.
pub const WRAP_WIDTH: usize = 80;

/// What the HTML entity decoder makes of a text; it depends on the text alone.
pub uninterp spec fn decoded_entities(html: Seq<char>) -> Seq<char>;

/// What the HTML-to-text renderer makes of a document at a wrap width: the
/// rendered text, or `None` where it cannot render it.
pub uninterp spec fn rendered_text(html: Seq<char>, width: usize) -> Option<Seq<char>>;

/// Relies on `html_escape::decode_html_entities`: the decoded text is a function
/// of the input text.
#[verifier::external_body]
fn decode_entities(html: &str) -> (r: String)
    ensures
        r@ == decoded_entities(html@),
{
    html_escape::decode_html_entities(html).to_string()
}

/// Relies on `html2text::config::plain` and `Config::string_from_read`: the plain
/// rendering of a document wrapped at `width` columns, or an error.
#[verifier::external_body]
fn render_text(html: &str, width: usize) -> (r: Option<String>)
    ensures
        r is None <==> rendered_text(html@, width) is None,
        r matches Some(t) ==> rendered_text(html@, width) == Some(t@),
{
    html2text::config::plain().string_from_read(html.as_bytes(), width).ok()
}

/// A post as the feed delivers it. `created_at` is in milliseconds since the
/// Unix epoch.
pub struct TootIn {
    pub id: String,
    pub content: String,
    pub created_at: i64,
}

/// A cached post: normalized content and whether it has been served.
/// `created_at` is in milliseconds since the Unix epoch.
pub struct Toot {
    pub id: String,
    pub content: String,
    pub created_at: i64,
    pub served: bool,
}

/// The mathematical value of a [`TootIn`].
pub struct TootInView {
    pub id: Seq<char>,
    pub content: Seq<char>,
    pub created_at: i64,
}

/// The mathematical value of a [`Toot`].
pub struct TootView {
    pub id: Seq<char>,
    pub content: Seq<char>,
    pub created_at: i64,
    pub served: bool,
}

impl View for TootIn {
    type V = TootInView;

    open spec fn view(&self) -> TootInView {
        TootInView { id: self.id@, content: self.content@, created_at: self.created_at }
    }
}

impl View for Toot {
    type V = TootView;

    open spec fn view(&self) -> TootView {
        TootView {
            id: self.id@,
            content: self.content@,
            created_at: self.created_at,
            served: self.served,
        }
    }
}

/// `i` and `j` are the first two positions of `s` that hold a double quote.
pub open spec fn first_quote_pair(s: Seq<char>, i: int, j: int) -> bool {
    &&& 0 <= i < j < s.len()
    &&& s[i] == '"'
    &&& s[j] == '"'
    &&& forall|k: int| 0 <= k < j && k != i ==> s[k] != '"'
}

/// `s` holds at least two double-quote characters.
pub open spec fn has_two_quotes(s: Seq<char>) -> bool {
    exists|i: int, j: int| 0 <= i < j < s.len() && s[i] == '"' && s[j] == '"'
}

/// The text between the first two double quotes of `s`, if there are two.
pub open spec fn between_quotes(s: Seq<char>) -> Option<Seq<char>> {
    if exists|i: int, j: int| first_quote_pair(s, i, j) {
        let (i, j) = choose|i: int, j: int| first_quote_pair(s, i, j);
        Some(s.subrange(i + 1, j))
    } else {
        None
    }
}

/// Content kept from rendered text: all of it, or with `extract_quoted` only the
/// quoted part.
pub open spec fn content_from_text(text: Seq<char>, extract_quoted: bool) -> Option<Seq<char>> {
    if extract_quoted {
        between_quotes(text)
    } else {
        Some(text)
    }
}

/// The normalized content of a raw post body: entities decoded, markup rendered
/// as text, then optionally the quoted part; `None` where the post is rejected.
pub open spec fn normalized(raw: Seq<char>, extract_quoted: bool) -> Option<Seq<char>> {
    match rendered_text(decoded_entities(raw), WRAP_WIDTH) {
        Some(text) => content_from_text(text, extract_quoted),
        None => None,
    }
}

/// Text with fewer than two double quotes has no quoted part.
pub proof fn lemma_no_quotes_no_content(s: Seq<char>)
    requires
        !has_two_quotes(s),
    ensures
        between_quotes(s) is None,
{
    if exists|i: int, j: int| first_quote_pair(s, i, j) {
        let (i, j) = choose|i: int, j: int| first_quote_pair(s, i, j);
        assert(s[i] == '"' && s[j] == '"');
    }
}

proof fn lemma_pair_unique(s: Seq<char>, i: int, j: int, a: int, b: int)
    requires
        first_quote_pair(s, i, j),
        first_quote_pair(s, a, b),
    ensures
        i == a && j == b,
{
    if i < a {
        assert(s[i] != '"');
    } else if a < i {
        assert(s[a] != '"');
    }
    if j < b {
        assert(s[j] != '"');
    } else if b < j {
        assert(s[b] != '"');
    }
}

/// The text between the first two double quotes of `text`; `None` where the text
/// holds fewer than two.
pub fn extract_between_quotes(text: &str) -> (r: Option<String>)
    ensures
        r is None <==> !has_two_quotes(text@),
        r is None <==> between_quotes(text@) is None,
        r matches Some(t) ==> between_quotes(text@) == Some(t@),
{
    let n = text.unicode_len();
    let mut first: Option<usize> = None;
    let mut i: usize = 0;
    while i < n
        invariant
            n == text@.len(),
            i <= n,
            first matches Some(f) ==> f < i && text@[f as int] == '"',
            forall|k: int|
                0 <= k < i && !(first matches Some(f) && k == f) ==> text@[k] != '"',
        decreases n - i,
    {
        let c = text.get_char(i);
        if c == '"' {
            match first {
                Some(f) => {
                    let t = text.substring_char(f + 1, i);
                    proof {
                        assert(first_quote_pair(text@, f as int, i as int));
                        let (a, b) = choose|a: int, b: int| first_quote_pair(text@, a, b);
                        lemma_pair_unique(text@, f as int, i as int, a, b);
                        assert(has_two_quotes(text@)) by {
                            assert(text@[f as int] == '"' && text@[i as int] == '"');
                        }
                    }
                    return Some(t.to_string());
                },
                None => {
                    first = Some(i);
                },
            }
        }
        i += 1;
    }
    proof {
        assert(!has_two_quotes(text@)) by {
            if has_two_quotes(text@) {
                let (a, b) = choose|a: int, b: int|
                    0 <= a < b < text@.len() && text@[a] == '"' && text@[b] == '"';
                assert(first matches Some(f) && a == f);
                assert(first matches Some(f) && b == f);
            }
        }
        assert(!exists|a: int, b: int| first_quote_pair(text@, a, b)) by {
            if exists|a: int, b: int| first_quote_pair(text@, a, b) {
                let (a, b) = choose|a: int, b: int| first_quote_pair(text@, a, b);
                assert(text@[a] == '"' && text@[b] == '"');
            }
        }
    }
    None
}

impl Toot {
    /// Builds a cached item from a post's rendered text; with `extract_quoted`
    /// only the text between its first two double quotes is kept, and a text
    /// with fewer than two is rejected.
    pub fn from_text(id: String, text: &str, created_at: i64, extract_quoted: bool) -> (r: Result<
        Toot,
        Error,
    >)
        ensures
            r is Ok <==> content_from_text(text@, extract_quoted) is Some,
            r matches Ok(t) ==> t@ == (TootView {
                id: id@,
                content: content_from_text(text@, extract_quoted)->0,
                created_at,
                served: false,
            }),
            r matches Err(e) ==> e is BadRequest,
    {
        let content = if extract_quoted {
            match extract_between_quotes(text) {
                Some(t) => t,
                None => {
                    return Err(Error::BadRequest(String::from_str("failed to parse toot with double quotes")));
                },
            }
        } else {
            text.to_string()
        };
        Ok(Toot { id, content, created_at, served: false })
    }

    /// Normalizes a post: decodes its HTML entities, renders its markup as text
    /// wrapped at [`WRAP_WIDTH`] columns, and keeps the text as
    /// [`Toot::from_text`] does.
    pub fn try_from_toot_in(toot: TootIn, extract_quoted: bool) -> (r: Result<Toot, Error>)
        ensures
            r is Ok <==> normalized(toot.content@, extract_quoted) is Some,
            r matches Ok(t) ==> t@ == (TootView {
                id: toot.id@,
                content: normalized(toot.content@, extract_quoted)->0,
                created_at: toot.created_at,
                served: false,
            }),
            r matches Err(e) ==> e is BadRequest,
    {
        let decoded = decode_entities(toot.content.as_str());
        match render_text(decoded.as_str(), WRAP_WIDTH) {
            Some(text) => Toot::from_text(toot.id, text.as_str(), toot.created_at, extract_quoted),
            None => Err(Error::BadRequest(String::from_str("failed to render toot as text"))),
        }
    }
}

} // verus!

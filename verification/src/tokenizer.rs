//! Message content tokenizer.
//!
//! Raw message text is cut left to right into lexical tokens: protocol
//! references (a word opening with `nostr:`), URLs (a word opening with an
//! HTTP scheme), hashtags (`#` followed by identifier characters), line
//! breaks, single spaces, and plain text. A word is a maximal run free of
//! spaces and line breaks. The defining law, proved for every input in
//! `lemma_tokenize_round_trip`, is that concatenating the text of the emitted
//! tokens in order reproduces the input exactly.

use vstd::prelude::*;

verus! {

/// One lexical unit of parsed message content.
#[derive(Debug)]
pub enum SerializableToken {
    /// A word carrying a protocol reference, `nostr:` included.
    Nostr(String),
    /// A word carrying an HTTP or HTTPS URL.
    Url(String),
    /// A hashtag: `#` followed by identifier characters.
    Hashtag(String),
    /// A run of plain text.
    Text(String),
    /// One line-break character.
    LineBreak,
    /// One space character.
    Whitespace,
}

/// The mathematical shape of a token: its variant and its characters.
pub enum TokenV {
    Nostr(Seq<char>),
    Url(Seq<char>),
    Hashtag(Seq<char>),
    Text(Seq<char>),
    LineBreak,
    Whitespace,
}

impl View for SerializableToken {
    type V = TokenV;

    open spec fn view(&self) -> TokenV {
        match self {
            SerializableToken::Nostr(s) => TokenV::Nostr(s@),
            SerializableToken::Url(s) => TokenV::Url(s@),
            SerializableToken::Hashtag(s) => TokenV::Hashtag(s@),
            SerializableToken::Text(s) => TokenV::Text(s@),
            SerializableToken::LineBreak => TokenV::LineBreak,
            SerializableToken::Whitespace => TokenV::Whitespace,
        }
    }
}

impl Clone for SerializableToken {
    fn clone(&self) -> (r: Self)
        ensures
            r@ == self@,
    {
        match self {
            SerializableToken::Nostr(s) => SerializableToken::Nostr(s.clone()),
            SerializableToken::Url(s) => SerializableToken::Url(s.clone()),
            SerializableToken::Hashtag(s) => SerializableToken::Hashtag(s.clone()),
            SerializableToken::Text(s) => SerializableToken::Text(s.clone()),
            SerializableToken::LineBreak => SerializableToken::LineBreak,
            SerializableToken::Whitespace => SerializableToken::Whitespace,
        }
    }
}

/// The text a token stands for.
pub open spec fn token_text(t: TokenV) -> Seq<char> {
    match t {
        TokenV::Nostr(s) => s,
        TokenV::Url(s) => s,
        TokenV::Hashtag(s) => s,
        TokenV::Text(s) => s,
        TokenV::LineBreak => seq!['\n'],
        TokenV::Whitespace => seq![' '],
    }
}

/// The concatenated text of a token sequence, in order.
pub open spec fn tokens_text(ts: Seq<TokenV>) -> Seq<char>
    decreases ts.len(),
{
    if ts.len() == 0 {
        Seq::empty()
    } else {
        token_text(ts[0]) + tokens_text(ts.drop_first())
    }
}

/// The views of a vector of tokens.
pub open spec fn token_views(ts: Seq<SerializableToken>) -> Seq<TokenV> {
    ts.map_values(|t: SerializableToken| t@)
}

/// A character a word may hold: anything but a space or a line break.
pub open spec fn is_word_char(c: char) -> bool {
    c != ' ' && c != '\n'
}

/// The length of the word opening a string: its maximal prefix of word
/// characters.
pub open spec fn word_len(s: Seq<char>) -> nat
    decreases s.len(),
{
    if s.len() == 0 || !is_word_char(s[0]) {
        0
    } else {
        1 + word_len(s.drop_first())
    }
}

/// The word at the head of a string is a run of word characters stopped by
/// the end or by a non-word character.
pub proof fn lemma_word_len(s: Seq<char>)
    ensures
        word_len(s) <= s.len(),
        forall|i: int| 0 <= i < word_len(s) ==> is_word_char(#[trigger] s[i]),
        word_len(s) < s.len() ==> !is_word_char(s[word_len(s) as int]),
        s.len() > 0 && is_word_char(s[0]) ==> word_len(s) >= 1,
    decreases s.len(),
{
    if s.len() > 0 && is_word_char(s[0]) {
        lemma_word_len(s.drop_first());
        assert forall|i: int| 0 <= i < word_len(s) implies is_word_char(#[trigger] s[i]) by {
            if i > 0 {
                assert(s.drop_first()[i - 1] == s[i]);
            }
        }
        if word_len(s) < s.len() {
            assert(s.drop_first()[word_len(s) as int - 1] == s[word_len(s) as int]);
        }
    }
}

/// A head run of exactly `k` word characters pins the word length to `k`.
pub proof fn lemma_word_len_is(s: Seq<char>, k: int)
    requires
        0 <= k <= s.len(),
        forall|i: int| 0 <= i < k ==> is_word_char(#[trigger] s[i]),
        k == s.len() || !is_word_char(s[k]),
    ensures
        word_len(s) == k,
    decreases s.len(),
{
    if k > 0 {
        assert forall|i: int| 0 <= i < k - 1 implies is_word_char(#[trigger] s.drop_first()[i]) by {
            assert(s.drop_first()[i] == s[i + 1]);
        }
        if k - 1 < s.drop_first().len() {
            assert(s.drop_first()[k - 1] == s[k]);
        }
        lemma_word_len_is(s.drop_first(), k - 1);
    }
}

/// The characters that may follow `#` in a hashtag.
pub open spec fn is_ident_char(c: char) -> bool {
    ('a' <= c && c <= 'z') || ('A' <= c && c <= 'Z') || ('0' <= c && c <= '9') || c == '_'
}

/// Whether a string holds identifier characters only.
pub open spec fn all_ident(s: Seq<char>) -> bool {
    forall|i: int| 0 <= i < s.len() ==> is_ident_char(#[trigger] s[i])
}

/// One string opens with another.
pub open spec fn starts_with(s: Seq<char>, p: Seq<char>) -> bool {
    p.len() <= s.len() && s.take(p.len() as int) == p
}

/// The protocol reference scheme.
pub open spec fn nostr_prefix() -> Seq<char> {
    seq!['n', 'o', 's', 't', 'r', ':']
}

/// The plain HTTP scheme.
pub open spec fn http_prefix() -> Seq<char> {
    seq!['h', 't', 't', 'p', ':', '/', '/']
}

/// The TLS HTTP scheme.
pub open spec fn https_prefix() -> Seq<char> {
    seq!['h', 't', 't', 'p', 's', ':', '/', '/']
}

/// The classification of one word, by falling precedence: protocol
/// reference, URL, hashtag, plain text. The token always carries the whole
/// word.
pub open spec fn classify_word(w: Seq<char>) -> TokenV {
    if starts_with(w, nostr_prefix()) {
        TokenV::Nostr(w)
    } else if starts_with(w, https_prefix()) || starts_with(w, http_prefix()) {
        TokenV::Url(w)
    } else if w.len() >= 2 && w[0] == '#' && all_ident(w.skip(1)) {
        TokenV::Hashtag(w)
    } else {
        TokenV::Text(w)
    }
}

/// The token sequence of a string: line breaks and spaces stand alone, and
/// every other maximal space-free run is one classified word.
pub open spec fn tokenize_spec(s: Seq<char>) -> Seq<TokenV>
    decreases s.len(),
    via tokenize_spec_decreases
{
    if s.len() == 0 {
        Seq::empty()
    } else if s[0] == '\n' {
        seq![TokenV::LineBreak] + tokenize_spec(s.drop_first())
    } else if s[0] == ' ' {
        seq![TokenV::Whitespace] + tokenize_spec(s.drop_first())
    } else {
        seq![classify_word(s.take(word_len(s) as int))] + tokenize_spec(s.skip(word_len(s) as int))
    }
}

#[via_fn]
proof fn tokenize_spec_decreases(s: Seq<char>) {
    if s.len() > 0 && s[0] != '\n' && s[0] != ' ' {
        lemma_word_len(s);
    }
}

/// Splitting off the first token splits the text.
proof fn lemma_tokens_text_cons(t: TokenV, ts: Seq<TokenV>)
    ensures
        tokens_text(seq![t] + ts) == token_text(t) + tokens_text(ts),
{
    assert((seq![t] + ts)[0] == t);
    assert((seq![t] + ts).drop_first() =~= ts);
}

/// The round-trip law of the tokenizer: for every input, the concatenated
/// text of the emitted tokens reproduces the input exactly.
pub proof fn lemma_tokenize_round_trip(s: Seq<char>)
    ensures
        tokens_text(tokenize_spec(s)) == s,
    decreases s.len(),
{
    if s.len() == 0 {
        assert(tokens_text(tokenize_spec(s)) =~= s);
    } else if s[0] == '\n' {
        lemma_tokenize_round_trip(s.drop_first());
        lemma_tokens_text_cons(TokenV::LineBreak, tokenize_spec(s.drop_first()));
        assert(seq!['\n'] + s.drop_first() =~= s);
    } else if s[0] == ' ' {
        lemma_tokenize_round_trip(s.drop_first());
        lemma_tokens_text_cons(TokenV::Whitespace, tokenize_spec(s.drop_first()));
        assert(seq![' '] + s.drop_first() =~= s);
    } else {
        lemma_word_len(s);
        let n = word_len(s) as int;
        lemma_tokenize_round_trip(s.skip(n));
        lemma_tokens_text_cons(classify_word(s.take(n)), tokenize_spec(s.skip(n)));
        assert(token_text(classify_word(s.take(n))) == s.take(n));
        assert(s.take(n) + s.skip(n) =~= s);
    }
}

/// Checks whether one string opens with another.
pub(crate) fn str_starts_with(s: &str, p: &str) -> (r: bool)
    ensures
        r == starts_with(s@, p@),
{
    let sn = s.unicode_len();
    let pn = p.unicode_len();
    if pn > sn {
        return false;
    }
    let mut i: usize = 0;
    while i < pn
        invariant
            sn == s@.len(),
            pn == p@.len(),
            pn <= sn,
            i <= pn,
            forall|j: int| 0 <= j < i ==> s@[j] == p@[j],
        decreases pn - i,
    {
        if s.get_char(i) != p.get_char(i) {
            assert(!starts_with(s@, p@)) by {
                assert(s@.take(pn as int)[i as int] == s@[i as int]);
            }
            return false;
        }
        i += 1;
    }
    assert(s@.take(pn as int) =~= p@);
    true
}

/// Checks that every character from a position on is an identifier
/// character.
fn all_ident_from(s: &str, from: usize) -> (r: bool)
    requires
        from <= s@.len(),
    ensures
        r == all_ident(s@.skip(from as int)),
{
    let n = s.unicode_len();
    let mut i: usize = from;
    while i < n
        invariant
            n == s@.len(),
            from <= i <= n,
            forall|j: int| from <= j < i ==> is_ident_char(#[trigger] s@[j]),
        decreases n - i,
    {
        let c = s.get_char(i);
        let ok = ('a' <= c && c <= 'z') || ('A' <= c && c <= 'Z') || ('0' <= c && c <= '9') || c
            == '_';
        if !ok {
            assert(s@.skip(from as int)[i - from] == s@[i as int]);
            return false;
        }
        i += 1;
    }
    assert forall|j: int| 0 <= j < s@.skip(from as int).len() implies is_ident_char(
        #[trigger] s@.skip(from as int)[j],
    ) by {
        assert(s@.skip(from as int)[j] == s@[j + from]);
    }
    true
}

/// Classifies one word, already cut from the input.
fn classify_word_exec(w: &str) -> (r: SerializableToken)
    requires
        w@.len() >= 1,
    ensures
        r@ == classify_word(w@),
{
    proof {
        reveal_strlit("nostr:");
        reveal_strlit("http://");
        reveal_strlit("https://");
        assert("nostr:"@ =~= nostr_prefix());
        assert("http://"@ =~= http_prefix());
        assert("https://"@ =~= https_prefix());
    }
    if str_starts_with(w, "nostr:") {
        SerializableToken::Nostr(w.to_owned())
    } else if str_starts_with(w, "https://") || str_starts_with(w, "http://") {
        SerializableToken::Url(w.to_owned())
    } else if w.unicode_len() >= 2 && w.get_char(0) == '#' && all_ident_from(w, 1) {
        proof {
            assert(w@.skip(1) == w@.skip(1int));
        }
        SerializableToken::Hashtag(w.to_owned())
    } else {
        SerializableToken::Text(w.to_owned())
    }
}

/// Finds the end of the word opening at a position: the first following
/// position holding a space or a line break, or the end of the string.
fn scan_word_end(s: &str, i: usize) -> (j: usize)
    requires
        i < s@.len(),
        is_word_char(s@[i as int]),
    ensures
        i < j <= s@.len(),
        forall|k: int| i <= k < j ==> is_word_char(#[trigger] s@[k]),
        j < s@.len() ==> !is_word_char(s@[j as int]),
{
    let n = s.unicode_len();
    let mut j: usize = i + 1;
    let mut stop: bool = false;
    while j < n && !stop
        invariant
            n == s@.len(),
            i < j <= n,
            forall|k: int| i <= k < j ==> is_word_char(#[trigger] s@[k]),
            stop ==> j < n && !is_word_char(s@[j as int]),
        decreases n - j, if stop { 0int } else { 1int },
    {
        let cj = s.get_char(j);
        if cj == ' ' || cj == '\n' {
            stop = true;
        } else {
            j += 1;
        }
    }
    j
}

/// Cuts message content into tokens. The result is exactly the token
/// sequence of the input, so its concatenated text is the input itself.
pub fn tokenize(content: &str) -> (r: Vec<SerializableToken>)
    ensures
        token_views(r@) == tokenize_spec(content@),
        tokens_text(token_views(r@)) == content@,
{
    let ghost s = content@;
    let n = content.unicode_len();
    let mut i: usize = 0;
    let mut r: Vec<SerializableToken> = Vec::new();
    proof {
        assert(s.skip(0) =~= s);
        assert(token_views(r@) + tokenize_spec(s) =~= tokenize_spec(s));
    }
    while i < n
        invariant
            n == s.len(),
            s == content@,
            i <= n,
            tokenize_spec(s) == token_views(r@) + tokenize_spec(s.skip(i as int)),
        decreases n - i,
    {
        let ghost r0 = r@;
        let ghost rest = s.skip(i as int);
        let c = content.get_char(i);
        if c == '\n' {
            r.push(SerializableToken::LineBreak);
            i += 1;
            proof {
                assert(rest[0] == '\n');
                assert(rest.drop_first() =~= s.skip(i as int));
                assert(token_views(r@) =~= token_views(r0) + seq![TokenV::LineBreak]);
                assert(token_views(r0) + seq![TokenV::LineBreak] + tokenize_spec(s.skip(i as int))
                    =~= token_views(r0) + (seq![TokenV::LineBreak] + tokenize_spec(
                    s.skip(i as int),
                )));
            }
        } else if c == ' ' {
            r.push(SerializableToken::Whitespace);
            i += 1;
            proof {
                assert(rest[0] == ' ');
                assert(rest.drop_first() =~= s.skip(i as int));
                assert(token_views(r@) =~= token_views(r0) + seq![TokenV::Whitespace]);
                assert(token_views(r0) + seq![TokenV::Whitespace] + tokenize_spec(s.skip(i as int))
                    =~= token_views(r0) + (seq![TokenV::Whitespace] + tokenize_spec(
                    s.skip(i as int),
                )));
            }
        } else {
            let j = scan_word_end(content, i);
            proof {
                assert forall|k: int| 0 <= k < j - i implies is_word_char(#[trigger] rest[k]) by {
                    assert(rest[k] == s[i + k]);
                }
                if j < n {
                    assert(rest[j - i] == s[j as int]);
                }
                lemma_word_len_is(rest, j - i);
                assert(rest.take(j - i) =~= s.subrange(i as int, j as int));
            }
            let w = content.substring_char(i, j);
            let tok = classify_word_exec(w);
            r.push(tok);
            proof {
                assert(rest.skip(j - i) =~= s.skip(j as int));
                assert(token_views(r@) =~= token_views(r0) + seq![tok@]);
                assert(token_views(r0) + seq![tok@] + tokenize_spec(s.skip(j as int)) =~=
                    token_views(r0) + (seq![tok@] + tokenize_spec(s.skip(j as int))));
            }
            i = j;
        }
    }
    proof {
        assert(s.skip(n as int) =~= Seq::<char>::empty());
        assert(token_views(r@) + tokenize_spec(s.skip(n as int)) =~= token_views(r@));
        lemma_tokenize_round_trip(s);
    }
    r
}

/// The type name the presentation layer shows for each token variant.
pub open spec fn token_type_name(t: TokenV) -> Seq<char> {
    match t {
        TokenV::Nostr(_) => "Nostr"@,
        TokenV::Url(_) => "Url"@,
        TokenV::Hashtag(_) => "Hashtag"@,
        TokenV::Text(_) => "Text"@,
        TokenV::LineBreak => "LineBreak"@,
        TokenV::Whitespace => "Whitespace"@,
    }
}

/// The content the presentation layer shows: the carried text, or nothing
/// for line breaks and spaces.
pub open spec fn token_content(t: TokenV) -> Option<Seq<char>> {
    match t {
        TokenV::Nostr(s) => Some(s),
        TokenV::Url(s) => Some(s),
        TokenV::Hashtag(s) => Some(s),
        TokenV::Text(s) => Some(s),
        TokenV::LineBreak => None,
        TokenV::Whitespace => None,
    }
}

impl SerializableToken {
    /// The name of the token's variant.
    pub fn token_type(&self) -> (r: String)
        ensures
            r@ == token_type_name(self@),
    {
        match self {
            SerializableToken::Nostr(_) => "Nostr".to_owned(),
            SerializableToken::Url(_) => "Url".to_owned(),
            SerializableToken::Hashtag(_) => "Hashtag".to_owned(),
            SerializableToken::Text(_) => "Text".to_owned(),
            SerializableToken::LineBreak => "LineBreak".to_owned(),
            SerializableToken::Whitespace => "Whitespace".to_owned(),
        }
    }

    /// The text the token carries, if its variant carries any.
    pub fn content(&self) -> (r: Option<String>)
        ensures
            match r {
                Some(s) => token_content(self@) == Some(s@),
                None => token_content(self@) is None,
            },
    {
        match self {
            SerializableToken::Nostr(s) => Some(s.clone()),
            SerializableToken::Url(s) => Some(s.clone()),
            SerializableToken::Hashtag(s) => Some(s.clone()),
            SerializableToken::Text(s) => Some(s.clone()),
            SerializableToken::LineBreak => None,
            SerializableToken::Whitespace => None,
        }
    }
}

} // verus!

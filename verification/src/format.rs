use vstd::prelude::*;
use vstd::string::*;

verus! {

// ---------------------------------------------------------------------------
// Tokens
// ---------------------------------------------------------------------------

/// The mathematical model of one compiled log-format token.
pub enum Token {
    Str(Seq<char>),
    Percent,
    RequestLine,
    RequestTime,
    ResponseStatus,
    ResponseSize,
    Time,
    TimeMillis,
    RemoteAddr,
    RealIpRemoteAddr,
    UrlPath,
    RequestHeader(Seq<char>),
    ResponseHeader(Seq<char>),
    EnvironHeader(Seq<char>),
    CustomRequest(Seq<char>),
    CustomResponse(Seq<char>),
}

/// One piece of a log line: either literal text or a field that is filled in
/// during one of the three phases of a request's life.
#[derive(Debug, PartialEq, Eq)]
pub enum FormatText {
    Str(String),
    Percent,
    RequestLine,
    RequestTime,
    ResponseStatus,
    ResponseSize,
    Time,
    TimeMillis,
    RemoteAddr,
    RealIpRemoteAddr,
    UrlPath,
    RequestHeader(String),
    ResponseHeader(String),
    EnvironHeader(String),
    CustomRequest(String),
    CustomResponse(String),
}

impl View for FormatText {
    type V = Token;

    open spec fn view(&self) -> Token {
        match self {
            FormatText::Str(s) => Token::Str(s@),
            FormatText::Percent => Token::Percent,
            FormatText::RequestLine => Token::RequestLine,
            FormatText::RequestTime => Token::RequestTime,
            FormatText::ResponseStatus => Token::ResponseStatus,
            FormatText::ResponseSize => Token::ResponseSize,
            FormatText::Time => Token::Time,
            FormatText::TimeMillis => Token::TimeMillis,
            FormatText::RemoteAddr => Token::RemoteAddr,
            FormatText::RealIpRemoteAddr => Token::RealIpRemoteAddr,
            FormatText::UrlPath => Token::UrlPath,
            FormatText::RequestHeader(n) => Token::RequestHeader(n@),
            FormatText::ResponseHeader(n) => Token::ResponseHeader(n@),
            FormatText::EnvironHeader(n) => Token::EnvironHeader(n@),
            FormatText::CustomRequest(n) => Token::CustomRequest(n@),
            FormatText::CustomResponse(n) => Token::CustomResponse(n@),
        }
    }
}

impl DeepView for FormatText {
    type V = Token;

    open spec fn deep_view(&self) -> Token {
        self.view()
    }
}

/// A compiled format: an ordered sequence of tokens. Immutable once built;
/// each request works on its own copy.
#[derive(Debug, PartialEq, Eq)]
pub struct Format(pub Vec<FormatText>);

impl View for Format {
    type V = Seq<Token>;

    open spec fn view(&self) -> Seq<Token> {
        self.0.deep_view()
    }
}

/// Why a format string is rejected at construction time.
#[derive(Debug, Clone, Copy, PartialEq, Eq, Structural)]
pub enum FormatError {
    /// A `%{name}a` directive whose name is not the one supported trusted-address key `r`.
    UnsupportedAddressKey,
}

// ---------------------------------------------------------------------------
// The directive grammar
// ---------------------------------------------------------------------------

/// Characters allowed in a `%{name}` key.
pub open spec fn is_key_char(c: char) -> bool {
    ('A' <= c && c <= 'Z') || ('a' <= c && c <= 'z') || ('0' <= c && c <= '9') || c == '-' || c
        == '_'
}

/// The single-character directive codes that may follow a bare `%`.
pub open spec fn is_code_char(c: char) -> bool {
    c == '%' || c == 'a' || c == 't' || c == 'P' || c == 'r' || c == 'U' || c == 's' || c == 'b'
        || c == 'T' || c == 'D'
}

/// Length of the maximal run of characters satisfying `p`, starting at `i`.
pub open spec fn run_len(s: Seq<char>, i: int, p: spec_fn(char) -> bool) -> int
    decreases s.len() - i,
{
    if i < 0 || i >= s.len() || !p(s[i]) {
        0
    } else {
        1 + run_len(s, i + 1, p)
    }
}

pub proof fn lemma_run_len_nonneg(s: Seq<char>, i: int, p: spec_fn(char) -> bool)
    ensures
        run_len(s, i, p) >= 0,
    decreases s.len() - i,
{
    if !(i < 0 || i >= s.len() || !p(s[i])) {
        lemma_run_len_nonneg(s, i + 1, p);
    }
}

/// What a scan of the run from `i` to `j` establishes about `run_len`.
pub proof fn lemma_run_len(s: Seq<char>, i: int, j: int, p: spec_fn(char) -> bool)
    requires
        0 <= i <= j <= s.len(),
        forall|k: int| i <= k < j ==> p(s[k]),
        j == s.len() || !p(s[j]),
    ensures
        run_len(s, i, p) == j - i,
    decreases j - i,
{
    if i == j {
    } else {
        lemma_run_len(s, i + 1, j, p);
    }
}

/// Length of the literal run (characters up to the next `%`) starting at `i`.
pub open spec fn lit_len_at(s: Seq<char>, i: int) -> int {
    run_len(s, i, |c: char| c != '%')
}

/// Length of the key of a braced directive `%{key}…` whose `%` stands at `i`.
pub open spec fn key_len_at(s: Seq<char>, i: int) -> int {
    run_len(s, i + 2, |c: char| is_key_char(c))
}

/// Length (1 or 2) of the category code of a braced directive, 0 if none fits.
pub open spec fn braced_code_len(s: Seq<char>, i: int) -> int {
    let c = i + 3 + key_len_at(s, i);
    if c < s.len() && (s[c] == 'a' || s[c] == 'i' || s[c] == 'o' || s[c] == 'e') {
        1
    } else if c + 1 < s.len() && s[c] == 'x' && (s[c + 1] == 'i' || s[c + 1] == 'o') {
        2
    } else {
        0
    }
}

/// Whether a full braced directive `%{key}code` stands at `i`.
pub open spec fn has_braced(s: Seq<char>, i: int) -> bool {
    let k = key_len_at(s, i);
    &&& i + 1 < s.len() && s[i + 1] == '{'
    &&& k >= 1
    &&& i + 2 + k < s.len() && s[i + 2 + k] == '}'
    &&& braced_code_len(s, i) >= 1
}

/// The key of a braced directive at `i`.
pub open spec fn braced_key(s: Seq<char>, i: int) -> Seq<char> {
    s.subrange(i + 2, i + 2 + key_len_at(s, i))
}

/// How many characters the directive whose `%` stands at `i` consumes.
pub open spec fn dir_len(s: Seq<char>, i: int) -> int {
    if has_braced(s, i) {
        3 + key_len_at(s, i) + braced_code_len(s, i)
    } else if i + 1 < s.len() && is_code_char(s[i + 1]) {
        2
    } else {
        1
    }
}

/// The token the directive at `i` compiles to.
pub open spec fn dir_token(s: Seq<char>, i: int) -> Token {
    if has_braced(s, i) {
        let key = braced_key(s, i);
        let c = i + 3 + key_len_at(s, i);
        if braced_code_len(s, i) == 2 {
            if s[c + 1] == 'i' {
                Token::CustomRequest(key)
            } else {
                Token::CustomResponse(key)
            }
        } else if s[c] == 'a' {
            Token::RealIpRemoteAddr
        } else if s[c] == 'i' {
            Token::RequestHeader(key)
        } else if s[c] == 'o' {
            Token::ResponseHeader(key)
        } else {
            Token::EnvironHeader(key)
        }
    } else if i + 1 < s.len() && is_code_char(s[i + 1]) {
        let c = s[i + 1];
        if c == '%' {
            Token::Percent
        } else if c == 'a' {
            Token::RemoteAddr
        } else if c == 't' {
            Token::RequestTime
        } else if c == 'r' {
            Token::RequestLine
        } else if c == 's' {
            Token::ResponseStatus
        } else if c == 'b' {
            Token::ResponseSize
        } else if c == 'U' {
            Token::UrlPath
        } else if c == 'T' {
            Token::Time
        } else if c == 'D' {
            Token::TimeMillis
        } else {
            Token::Str(seq!['P'])
        }
    } else {
        Token::Str(Seq::empty())
    }
}

/// A directive is acceptable unless it selects the trusted-address variant
/// `%{key}a` with a key other than `r`.
pub open spec fn dir_ok(s: Seq<char>, i: int) -> bool {
    !(has_braced(s, i) && braced_code_len(s, i) == 1 && s[i + 3 + key_len_at(s, i)] == 'a'
        && braced_key(s, i) != seq!['r'])
}

/// The token sequence compiled from `s`, read from position `i` on.
pub open spec fn spec_tokens_from(s: Seq<char>, i: int) -> Seq<Token>
    decreases s.len() - i,
{
    if i < 0 || i >= s.len() {
        Seq::empty()
    } else {
        let d = if s[i] == '%' {
            dir_len(s, i)
        } else {
            lit_len_at(s, i)
        };
        let step = if d < 1 {
            1
        } else {
            d
        };
        let j = if i + step > s.len() {
            s.len() as int
        } else {
            i + step
        };
        let tok = if s[i] == '%' {
            dir_token(s, i)
        } else {
            Token::Str(s.subrange(i, j))
        };
        seq![tok] + spec_tokens_from(s, j)
    }
}

/// Whether every directive of `s` from position `i` on is acceptable.
pub open spec fn spec_fmt_ok_from(s: Seq<char>, i: int) -> bool
    decreases s.len() - i,
{
    if i < 0 || i >= s.len() {
        true
    } else {
        let d = if s[i] == '%' {
            dir_len(s, i)
        } else {
            lit_len_at(s, i)
        };
        let step = if d < 1 {
            1
        } else {
            d
        };
        let j = if i + step > s.len() {
            s.len() as int
        } else {
            i + step
        };
        let ok = if s[i] == '%' {
            dir_ok(s, i)
        } else {
            true
        };
        ok && spec_fmt_ok_from(s, j)
    }
}

/// The token sequence a format string compiles to.
pub open spec fn spec_tokens(s: Seq<char>) -> Seq<Token> {
    spec_tokens_from(s, 0)
}

/// Whether a format string compiles at all.
pub open spec fn spec_fmt_ok(s: Seq<char>) -> bool {
    spec_fmt_ok_from(s, 0)
}

// ---------------------------------------------------------------------------
// The compiler
// ---------------------------------------------------------------------------

/// First position at or after `start` whose character is `%`, or the length.
fn scan_lit(s: &str, start: usize) -> (r: usize)
    requires
        start <= s@.len(),
    ensures
        start <= r <= s@.len(),
        r - start == run_len(s@, start as int, |c: char| c != '%'),
{
    let n = s.unicode_len();
    let mut j = start;
    while j < n
        invariant
            start <= j <= n,
            n == s@.len(),
            forall|k: int| start <= k < j ==> s@[k] != '%',
        decreases n - j,
    {
        if s.get_char(j) == '%' {
            proof {
                lemma_run_len(s@, start as int, j as int, |c: char| c != '%');
            }
            return j;
        }
        j += 1;
    }
    proof {
        lemma_run_len(s@, start as int, n as int, |c: char| c != '%');
    }
    n
}

fn is_key_char_exec(c: char) -> (r: bool)
    ensures
        r == is_key_char(c),
{
    ('A' <= c && c <= 'Z') || ('a' <= c && c <= 'z') || ('0' <= c && c <= '9') || c == '-' || c
        == '_'
}

/// First position at or after `start` whose character is no key character.
fn scan_key(s: &str, start: usize) -> (r: usize)
    requires
        start <= s@.len(),
    ensures
        start <= r <= s@.len(),
        r - start == run_len(s@, start as int, |c: char| is_key_char(c)),
{
    let n = s.unicode_len();
    let mut j = start;
    while j < n
        invariant
            start <= j <= n,
            n == s@.len(),
            forall|k: int| start <= k < j ==> is_key_char(s@[k]),
        decreases n - j,
    {
        if !is_key_char_exec(s.get_char(j)) {
            proof {
                lemma_run_len(s@, start as int, j as int, |c: char| is_key_char(c));
            }
            return j;
        }
        j += 1;
    }
    proof {
        lemma_run_len(s@, start as int, n as int, |c: char| is_key_char(c));
    }
    n
}

/// Reads the directive whose `%` stands at `i`; yields how many characters it
/// consumes and its token, or the construction-time error.
fn scan_directive(s: &str, i: usize) -> (r: Result<(usize, FormatText), FormatError>)
    requires
        i < s@.len(),
        s@[i as int] == '%',
    ensures
        r matches Ok(p) ==> {
            &&& 1 <= p.0
            &&& i + p.0 <= s@.len()
            &&& p.0 as int == dir_len(s@, i as int)
            &&& p.1@ == dir_token(s@, i as int)
        },
        (r is Err) <==> !dir_ok(s@, i as int),
{
    let n = s.unicode_len();
    if i + 1 >= n {
        return Ok((1, FormatText::Str(String::new())));
    }
    let c1 = s.get_char(i + 1);
    if c1 == '{' {
        let kend = scan_key(s, i + 2);
        let ghost k = key_len_at(s@, i as int);
        proof {
            assert(kend - (i + 2) == k);
        }
        if kend > i + 2 && kend < n && s.get_char(kend) == '}' {
            if kend + 1 < n {
                let cc = s.get_char(kend + 1);
                if cc == 'i' || cc == 'o' || cc == 'e' || cc == 'a' {
                    proof {
                        assert(braced_code_len(s@, i as int) == 1);
                        assert(has_braced(s@, i as int));
                    }
                    let key = s.substring_char(i + 2, kend).to_owned();
                    proof {
                        assert(key@ =~= braced_key(s@, i as int));
                    }
                    if cc == 'i' {
                        return Ok(((kend + 2) - i, FormatText::RequestHeader(key)));
                    } else if cc == 'o' {
                        return Ok(((kend + 2) - i, FormatText::ResponseHeader(key)));
                    } else if cc == 'e' {
                        return Ok(((kend + 2) - i, FormatText::EnvironHeader(key)));
                    } else {
                        // `%{key}a`: only the proxy-trusted key `r` exists.
                        if kend == i + 3 && s.get_char(i + 2) == 'r' {
                            proof {
                                assert(braced_key(s@, i as int) =~= seq!['r']);
                            }
                            return Ok(((kend + 2) - i, FormatText::RealIpRemoteAddr));
                        } else {
                            proof {
                                if braced_key(s@, i as int) == seq!['r'] {
                                    assert(key_len_at(s@, i as int) == 1);
                                    assert(s@[i + 2] == braced_key(s@, i as int)[0]);
                                }
                            }
                            return Err(FormatError::UnsupportedAddressKey);
                        }
                    }
                } else if cc == 'x' && kend + 2 < n {
                    let c2 = s.get_char(kend + 2);
                    if c2 == 'i' || c2 == 'o' {
                        proof {
                            assert(braced_code_len(s@, i as int) == 2);
                            assert(has_braced(s@, i as int));
                        }
                        let key = s.substring_char(i + 2, kend).to_owned();
                        proof {
                            assert(key@ =~= braced_key(s@, i as int));
                        }
                        if c2 == 'i' {
                            return Ok(((kend + 3) - i, FormatText::CustomRequest(key)));
                        } else {
                            return Ok(((kend + 3) - i, FormatText::CustomResponse(key)));
                        }
                    }
                }
            }
        }
        // No braced directive fits after the `%`; the `%` alone is consumed and
        // compiles to an empty literal, and the following text stays verbatim.
        proof {
            assert(!has_braced(s@, i as int));
            assert(!is_code_char('{'));
        }
        return Ok((1, FormatText::Str(String::new())));
    }
    proof {
        assert(!(s@[i as int + 1] == '{'));
        assert(!has_braced(s@, i as int));
    }
    if c1 == '%' {
        Ok((2, FormatText::Percent))
    } else if c1 == 'a' {
        Ok((2, FormatText::RemoteAddr))
    } else if c1 == 't' {
        Ok((2, FormatText::RequestTime))
    } else if c1 == 'r' {
        Ok((2, FormatText::RequestLine))
    } else if c1 == 's' {
        Ok((2, FormatText::ResponseStatus))
    } else if c1 == 'b' {
        Ok((2, FormatText::ResponseSize))
    } else if c1 == 'U' {
        Ok((2, FormatText::UrlPath))
    } else if c1 == 'T' {
        Ok((2, FormatText::Time))
    } else if c1 == 'D' {
        Ok((2, FormatText::TimeMillis))
    } else if c1 == 'P' {
        let lit = "P".to_owned();
        proof {
            reveal_strlit("P");
            assert(lit@ =~= seq!['P']);
        }
        Ok((2, FormatText::Str(lit)))
    } else {
        // A `%` followed by an unknown character consumes only itself.
        Ok((1, FormatText::Str(String::new())))
    }
}

impl FormatText {
    /// A copy whose model equals this token's.
    pub fn duplicate(&self) -> (r: FormatText)
        ensures
            r@ == self@,
    {
        match self {
            FormatText::Str(s) => FormatText::Str(s.clone()),
            FormatText::Percent => FormatText::Percent,
            FormatText::RequestLine => FormatText::RequestLine,
            FormatText::RequestTime => FormatText::RequestTime,
            FormatText::ResponseStatus => FormatText::ResponseStatus,
            FormatText::ResponseSize => FormatText::ResponseSize,
            FormatText::Time => FormatText::Time,
            FormatText::TimeMillis => FormatText::TimeMillis,
            FormatText::RemoteAddr => FormatText::RemoteAddr,
            FormatText::RealIpRemoteAddr => FormatText::RealIpRemoteAddr,
            FormatText::UrlPath => FormatText::UrlPath,
            FormatText::RequestHeader(n) => FormatText::RequestHeader(n.clone()),
            FormatText::ResponseHeader(n) => FormatText::ResponseHeader(n.clone()),
            FormatText::EnvironHeader(n) => FormatText::EnvironHeader(n.clone()),
            FormatText::CustomRequest(n) => FormatText::CustomRequest(n.clone()),
            FormatText::CustomResponse(n) => FormatText::CustomResponse(n.clone()),
        }
    }
}

impl Format {
    /// A copy whose model equals this format's: the per-request working copy
    /// of the shared template.
    pub fn duplicate(&self) -> (r: Format)
        ensures
            r@ == self@,
    {
        let mut v: Vec<FormatText> = Vec::new();
        let mut i: usize = 0;
        while i < self.0.len()
            invariant
                i <= self.0.len(),
                v.deep_view() == self@.take(i as int),
            decreases self.0.len() - i,
        {
            let ghost prev = v.deep_view();
            let t = self.0[i].duplicate();
            v.push(t);
            proof {
                assert(v.deep_view() =~= prev.push(t@));
                assert(prev.push(t@) =~= self@.take(i as int + 1));
            }
            i += 1;
        }
        proof {
            assert(self@.take(self.0.len() as int) =~= self@);
        }
        Format(v)
    }

    /// Compiles a format-directive string into its token sequence. Fails, at
    /// construction time and never per request, exactly on a `%{key}a`
    /// directive whose key is not `r`.
    pub fn compile(s: &str) -> (r: Result<Format, FormatError>)
        ensures
            (r is Ok) <==> spec_fmt_ok(s@),
            r matches Ok(f) ==> f@ == spec_tokens(s@),
    {
        let n = s.unicode_len();
        let mut toks: Vec<FormatText> = Vec::new();
        let mut i: usize = 0;
        while i < n
            invariant
                i <= n,
                n == s@.len(),
                spec_tokens(s@) == toks.deep_view() + spec_tokens_from(s@, i as int),
                spec_fmt_ok(s@) == spec_fmt_ok_from(s@, i as int),
            decreases n - i,
        {
            let ghost prev = toks.deep_view();
            let c = s.get_char(i);
            if c == '%' {
                match scan_directive(s, i) {
                    Ok((d, t)) => {
                        proof {
                            assert(spec_tokens_from(s@, i as int) =~= seq![t@]
                                + spec_tokens_from(s@, i as int + d as int));
                        }
                        toks.push(t);
                        proof {
                            assert(toks.deep_view() =~= prev + seq![t@]);
                            assert(spec_tokens(s@) =~= toks.deep_view() + spec_tokens_from(
                                s@,
                                i as int + d as int,
                            ));
                        }
                        i = i + d;
                    },
                    Err(e) => {
                        proof {
                            assert(!spec_fmt_ok_from(s@, i as int));
                        }
                        return Err(e);
                    },
                }
            } else {
                let j = scan_lit(s, i);
                proof {
                    assert(j - i == lit_len_at(s@, i as int));
                    lemma_run_len_nonneg(s@, i as int + 1, |c: char| c != '%');
                    assert(j > i);
                }
                let lit = s.substring_char(i, j).to_owned();
                proof {
                    assert(spec_tokens_from(s@, i as int) =~= seq![
                        Token::Str(s@.subrange(i as int, j as int)),
                    ] + spec_tokens_from(s@, j as int));
                    assert(lit@ =~= s@.subrange(i as int, j as int));
                }
                toks.push(FormatText::Str(lit));
                proof {
                    assert(toks.deep_view() =~= prev + seq![
                        Token::Str(s@.subrange(i as int, j as int)),
                    ]);
                    assert(spec_tokens(s@) =~= toks.deep_view() + spec_tokens_from(s@, j as int));
                }
                i = j;
            }
        }
        proof {
            assert(spec_tokens(s@) =~= toks.deep_view());
        }
        Ok(Format(toks))
    }

    /// Creates a `Format` from a format string known to be acceptable.
    pub fn new(s: &str) -> (r: Format)
        requires
            spec_fmt_ok(s@),
        ensures
            r@ == spec_tokens(s@),
    {
        match Format::compile(s) {
            Ok(f) => f,
            Err(_) => vstd::pervasive::unreached(),
        }
    }

    /// How many tokens the format holds.
    pub fn len(&self) -> (r: usize)
        ensures
            r == self@.len(),
    {
        self.0.len()
    }
}

} // verus!

use vstd::prelude::*;
use vstd::string::*;

use crate::format::lemma_run_len;
use crate::format::run_len;
use crate::strutil::spec_ends_with;
use crate::strutil::spec_starts_with;
use crate::strutil::str_ends_with;
use crate::strutil::str_starts_with;

verus! {

// ---------------------------------------------------------------------------
// Stage one: every tag onto a line of its own
// ---------------------------------------------------------------------------

/// The text with a line break inserted before each comment opener, closing
/// tag and opening tag, and after each comment closer, read from position
/// `i` on.
pub open spec fn spec_break_lines(s: Seq<char>, i: int) -> Seq<char>
    decreases s.len() - i,
{
    if i < 0 || i >= s.len() {
        Seq::empty()
    } else if s[i] == '<' && i + 3 < s.len() && s[i + 1] == '!' && s[i + 2] == '-' && s[i + 3]
        == '-' {
        "\n<!--"@ + spec_break_lines(s, i + 4)
    } else if s[i] == '-' && i + 2 < s.len() && s[i + 1] == '-' && s[i + 2] == '>' {
        "-->\n"@ + spec_break_lines(s, i + 3)
    } else if s[i] == '<' && i + 1 < s.len() && s[i + 1] == '/' {
        "\n</"@ + spec_break_lines(s, i + 2)
    } else if s[i] == '<' && i + 1 < s.len() && 'A' <= s[i + 1] && s[i + 1] <= 'z' {
        "\n<"@ + spec_break_lines(s, i + 1)
    } else {
        seq![s[i]] + spec_break_lines(s, i + 1)
    }
}

fn break_lines(s: &str) -> (r: String)
    ensures
        r@ == spec_break_lines(s@, 0),
{
    let n = s.unicode_len();
    let mut out = String::new();
    let mut i: usize = 0;
    proof {
        assert(out@ + spec_break_lines(s@, 0) =~= spec_break_lines(s@, 0));
    }
    while i < n
        invariant
            i <= n,
            n == s@.len(),
            spec_break_lines(s@, 0) == out@ + spec_break_lines(s@, i as int),
        decreases n - i,
    {
        let ghost pre = out@;
        let step: usize;
        let c = s.get_char(i);
        if c == '<' {
            if n - i > 3 && s.get_char(i + 1) == '!' && s.get_char(i + 2) == '-' && s.get_char(
                i + 3,
            ) == '-' {
                out.append("\n<!--");
                step = 4;
            } else if n - i > 1 && s.get_char(i + 1) == '/' {
                out.append("\n</");
                step = 2;
            } else if n - i > 1 {
                let c1 = s.get_char(i + 1);
                if 'A' <= c1 && c1 <= 'z' {
                    out.append("\n<");
                    step = 1;
                } else {
                    let piece = s.substring_char(i, i + 1);
                    proof {
                        assert(piece@ =~= seq![s@[i as int]]);
                    }
                    out.append(piece);
                    step = 1;
                }
            } else {
                let piece = s.substring_char(i, i + 1);
                proof {
                    assert(piece@ =~= seq![s@[i as int]]);
                }
                out.append(piece);
                step = 1;
            }
        } else if c == '-' && n - i > 2 && s.get_char(i + 1) == '-' && s.get_char(i + 2) == '>' {
            out.append("-->\n");
            step = 3;
        } else {
            let piece = s.substring_char(i, i + 1);
            proof {
                assert(piece@ =~= seq![s@[i as int]]);
            }
            out.append(piece);
            step = 1;
        }
        proof {
            assert(out@ + spec_break_lines(s@, i as int + step as int) =~= pre + spec_break_lines(
                s@,
                i as int,
            ));
        }
        i += step;
    }
    proof {
        assert(out@ + spec_break_lines(s@, n as int) =~= out@);
    }
    out
}

// ---------------------------------------------------------------------------
// Trimming
// ---------------------------------------------------------------------------

/// The whitespace characters trimmed at the edges.
pub open spec fn is_space(c: char) -> bool {
    c == ' ' || c == '\t' || c == '\n' || c == '\r'
}

fn is_space_exec(c: char) -> (r: bool)
    ensures
        r == is_space(c),
{
    c == ' ' || c == '\t' || c == '\n' || c == '\r'
}

/// How many whitespace characters the text begins with.
pub open spec fn leading_spaces(s: Seq<char>) -> int {
    run_len(s, 0, |c: char| is_space(c))
}

/// How many whitespace characters the text ends with.
pub open spec fn trailing_spaces(s: Seq<char>) -> int
    decreases s.len(),
{
    if s.len() > 0 && is_space(s.last()) {
        1 + trailing_spaces(s.drop_last())
    } else {
        0
    }
}

proof fn lemma_trailing_spaces(s: Seq<char>, b: int)
    requires
        0 <= b <= s.len(),
        forall|k: int| b <= k < s.len() ==> is_space(s[k]),
        b == 0 || !is_space(s[b - 1]),
    ensures
        trailing_spaces(s) == s.len() - b,
    decreases s.len(),
{
    if b < s.len() {
        assert(is_space(s.last()));
        assert(s.drop_last() =~= s.take(s.len() - 1));
        lemma_trailing_spaces(s.drop_last(), b);
    }
}

/// The text with the whitespace at both edges removed.
pub open spec fn spec_trim(s: Seq<char>) -> Seq<char> {
    if leading_spaces(s) == s.len() {
        Seq::empty()
    } else {
        s.subrange(leading_spaces(s), s.len() - trailing_spaces(s))
    }
}

fn trim(s: &str) -> (r: String)
    ensures
        r@ == spec_trim(s@),
{
    let n = s.unicode_len();
    let mut a: usize = 0;
    while a < n && is_space_exec(s.get_char(a))
        invariant
            a <= n,
            n == s@.len(),
            forall|k: int| 0 <= k < a ==> is_space(s@[k]),
        decreases n - a,
    {
        a += 1;
    }
    proof {
        lemma_run_len(s@, 0, a as int, |c: char| is_space(c));
    }
    if a == n {
        return String::new();
    }
    let mut b: usize = n;
    while b > 0 && is_space_exec(s.get_char(b - 1))
        invariant
            a < b <= n,
            n == s@.len(),
            !is_space(s@[a as int]),
            forall|k: int| b <= k < n ==> is_space(s@[k]),
        decreases b,
    {
        b -= 1;
    }
    proof {
        lemma_trailing_spaces(s@, b as int);
    }
    let r = s.substring_char(a, b).to_owned();
    proof {
        assert(r@ =~= spec_trim(s@));
    }
    r
}

// ---------------------------------------------------------------------------
// Splitting into lines
// ---------------------------------------------------------------------------

/// The lines of the text from position `i` on, split at every line break;
/// text ending in a break yields a final empty line.
pub open spec fn spec_split_from(s: Seq<char>, i: int) -> Seq<Seq<char>>
    decreases s.len() - i,
{
    if i < 0 || i > s.len() {
        Seq::empty()
    } else {
        let r = run_len(s, i, |c: char| c != '\n');
        let r2 = if r < 0 {
            0
        } else {
            r
        };
        if i + r2 >= s.len() {
            seq![s.subrange(i, s.len() as int)]
        } else {
            seq![s.subrange(i, i + r2)] + spec_split_from(s, i + r2 + 1)
        }
    }
}

fn split_lines(s: &str) -> (out: Vec<String>)
    ensures
        out.deep_view() == spec_split_from(s@, 0),
{
    let n = s.unicode_len();
    let mut out: Vec<String> = Vec::new();
    let mut i: usize = 0;
    let mut done = false;
    proof {
        assert(out.deep_view() + spec_split_from(s@, 0) =~= spec_split_from(s@, 0));
    }
    while !done
        invariant
            i <= n,
            n == s@.len(),
            !done ==> spec_split_from(s@, 0) == out.deep_view() + spec_split_from(s@, i as int),
            done ==> spec_split_from(s@, 0) == out.deep_view(),
        decreases n - i + (if done {
            0int
        } else {
            1int
        }),
    {
        let mut j = i;
        while j < n && s.get_char(j) != '\n'
            invariant
                i <= j <= n,
                n == s@.len(),
                forall|k: int| i <= k < j ==> s@[k] != '\n',
            decreases n - j,
        {
            j += 1;
        }
        proof {
            lemma_run_len(s@, i as int, j as int, |c: char| c != '\n');
        }
        let piece = s.substring_char(i, j).to_owned();
        let ghost prev = out.deep_view();
        out.push(piece);
        proof {
            assert(out.deep_view() =~= prev.push(s@.subrange(i as int, j as int)));
        }
        if j < n {
            proof {
                assert((prev.push(s@.subrange(i as int, j as int))) + spec_split_from(
                    s@,
                    j as int + 1,
                ) =~= prev + (seq![s@.subrange(i as int, j as int)] + spec_split_from(
                    s@,
                    j as int + 1,
                )));
            }
            i = j + 1;
        } else {
            proof {
                assert(s@.subrange(i as int, n as int) == s@.subrange(i as int, j as int));
                assert(spec_split_from(s@, i as int) =~= seq![s@.subrange(i as int, j as int)]);
                assert(prev.push(s@.subrange(i as int, j as int)) =~= prev + seq![
                    s@.subrange(i as int, j as int),
                ]);
            }
            done = true;
        }
    }
    out
}

// ---------------------------------------------------------------------------
// Stage two: indentation
// ---------------------------------------------------------------------------

/// Two spaces per nesting level.
pub open spec fn spec_indent_pad(n: nat) -> Seq<char>
    decreases n,
{
    if n == 0 {
        Seq::empty()
    } else {
        "  "@ + spec_indent_pad((n - 1) as nat)
    }
}

fn indent_pad(n: usize) -> (r: String)
    ensures
        r@ == spec_indent_pad(n as nat),
    decreases n,
{
    if n == 0 {
        String::new()
    } else {
        let mut s = "  ".to_owned();
        let rest = indent_pad(n - 1);
        s.append(rest.as_str());
        s
    }
}

/// The level a line is written at: a closing tag steps back out first, and
/// one with no open partner stays at zero.
pub open spec fn spec_pre_indent(line: Seq<char>, ind: nat) -> nat {
    if spec_starts_with(line, "</"@) {
        if ind > 0 {
            (ind - 1) as nat
        } else {
            0
        }
    } else {
        ind
    }
}

/// The level after a line: an opening tag steps in, a self-closing tag, a
/// document-type declaration and a metadata tag stay level.
pub open spec fn spec_post_indent(line: Seq<char>, ind: nat) -> nat {
    let d = spec_pre_indent(line, ind);
    if spec_starts_with(line, "</"@) {
        d
    } else if spec_ends_with(line, "/>"@) || spec_starts_with(line, "<!DOCTYPE"@)
        || spec_starts_with(line, "<meta "@) {
        d
    } else if line.len() > 0 && line[0] == '<' {
        (d + 1) as nat
    } else {
        d
    }
}

/// The lines, each indented at its level, joined by line breaks.
pub open spec fn spec_indent_lines(lines: Seq<Seq<char>>, ind: nat) -> Seq<char>
    decreases lines.len(),
{
    if lines.len() == 0 {
        Seq::empty()
    } else {
        let line = lines[0];
        spec_indent_pad(spec_pre_indent(line, ind)) + line + (if lines.len() > 1 {
            "\n"@
        } else {
            Seq::empty()
        }) + spec_indent_lines(lines.skip(1), spec_post_indent(line, ind))
    }
}

fn indent_lines(lines: &Vec<String>) -> (r: String)
    ensures
        r@ == spec_indent_lines(lines.deep_view(), 0),
{
    let n = lines.len();
    let mut out = String::new();
    let mut ind: usize = 0;
    let mut k: usize = 0;
    proof {
        assert(lines.deep_view().skip(0) =~= lines.deep_view());
        assert(out@ + spec_indent_lines(lines.deep_view(), 0) =~= spec_indent_lines(
            lines.deep_view(),
            0,
        ));
    }
    while k < n
        invariant
            k <= n,
            ind <= k,
            n == lines@.len(),
            lines.deep_view().len() == n,
            spec_indent_lines(lines.deep_view(), 0) == out@ + spec_indent_lines(
                lines.deep_view().skip(k as int),
                ind as nat,
            ),
        decreases n - k,
    {
        let ghost pre = out@;
        let ghost lv = lines.deep_view()[k as int];
        let line = &lines[k];
        proof {
            assert(lv == line@);
            assert(lines.deep_view().skip(k as int)[0] == lv);
            assert(lines.deep_view().skip(k as int).skip(1) =~= lines.deep_view().skip(
                k as int + 1,
            ));
        }
        let closing = str_starts_with(line.as_str(), "</");
        let d = if closing {
            if ind > 0 {
                ind - 1
            } else {
                0
            }
        } else {
            ind
        };
        let pad = indent_pad(d);
        out.append(pad.as_str());
        out.append(line.as_str());
        if k + 1 < n {
            out.append("\n");
        }
        let post: usize;
        if closing {
            post = d;
        } else if str_ends_with(line.as_str(), "/>") || str_starts_with(line.as_str(), "<!DOCTYPE")
            || str_starts_with(line.as_str(), "<meta ") {
            post = d;
        } else {
            let opens = if line.as_str().is_empty() {
                false
            } else {
                line.as_str().get_char(0) == '<'
            };
            if opens {
                post = d + 1;
            } else {
                post = d;
            }
        }
        proof {
            assert(d as nat == spec_pre_indent(lv, ind as nat));
            assert(post as nat == spec_post_indent(lv, ind as nat));
            assert(out@ + spec_indent_lines(lines.deep_view().skip(k as int + 1), post as nat)
                =~= pre + spec_indent_lines(lines.deep_view().skip(k as int), ind as nat));
        }
        ind = post;
        k += 1;
    }
    proof {
        assert(lines.deep_view().skip(n as int).len() == 0);
        assert(out@ + spec_indent_lines(lines.deep_view().skip(n as int), ind as nat) =~= out@);
    }
    out
}

// ---------------------------------------------------------------------------
// The whole prettifier
// ---------------------------------------------------------------------------

/// What prettifying produces: tags broken onto lines of their own, the edges
/// trimmed, and every line indented two spaces per nesting level.
pub open spec fn spec_prettify(s: Seq<char>) -> Seq<char> {
    spec_indent_lines(spec_split_from(spec_trim(spec_break_lines(s, 0)), 0), 0)
}

/// Prettify HTML input: every tag moves onto a line of its own and nesting
/// is re-indented, two spaces per level. A closing tag with no open partner
/// keeps the level at zero.
pub fn prettify(input: &str) -> (r: String)
    ensures
        r@ == spec_prettify(input@),
{
    let broken = break_lines(input);
    let trimmed = trim(broken.as_str());
    let lines = split_lines(trimmed.as_str());
    indent_lines(&lines)
}

} // verus!

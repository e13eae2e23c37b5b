//! The structure validator: decides whether a word-structure markup
//! annotates exactly the plain text of a sentence.
//!
//! The markup grammar is a small XML-like language: plain text freely
//! interleaved with tags.  A tag is `<name>`, `</name>` or `<name/>`,
//! where the name is any non-empty run of characters other than `<`
//! and `>`.  Tags must nest properly and every open tag must be
//! closed; text may stand anywhere, including outside any tag, and
//! several top-level elements are allowed.  Tags carry no text of
//! their own: the flattened text of a markup string is the
//! concatenation, in document order, of every character standing
//! outside the tags, kept verbatim.  Malformed markup (a stray `<`, a
//! tag never closed, a close tag that matches no open tag) flattens
//! to nothing and never validates.

use vstd::prelude::*;

verus! {

/// The scanner's state between two characters of the markup: either
/// inside a tag (collecting its body in `buf`) or outside all tags
/// (appending text to `out`), with the names of the open elements on
/// `stack`.
pub ghost struct ScanState {
    pub in_tag: bool,
    pub buf: Seq<char>,
    pub stack: Seq<Seq<char>>,
    pub out: Seq<char>,
}

/// The scanner's state before any character is read.
pub open spec fn scan_init() -> ScanState {
    ScanState { in_tag: false, buf: Seq::empty(), stack: Seq::empty(), out: Seq::empty() }
}

/// What a `>` does: ends the tag whose body is `st.buf`.  An empty
/// body is malformed; `/name` closes the innermost open element,
/// which must bear the same name; `name/` is a self-closed element;
/// any other body opens an element of that name.
pub open spec fn end_tag(st: ScanState) -> Option<ScanState> {
    let b = st.buf;
    if b.len() == 0 {
        None
    } else if b[0] == '/' {
        let name = b.skip(1);
        if name.len() > 0 && st.stack.len() > 0 && st.stack.last() == name {
            Some(ScanState { in_tag: false, buf: Seq::empty(), stack: st.stack.drop_last(), ..st })
        } else {
            None
        }
    } else if b.last() == '/' {
        Some(ScanState { in_tag: false, buf: Seq::empty(), ..st })
    } else {
        Some(ScanState { in_tag: false, buf: Seq::empty(), stack: st.stack.push(b), ..st })
    }
}

/// One step of the scanner, reading the character `c`.  `None` means
/// the markup is malformed at this character.
pub open spec fn scan_step(st: ScanState, c: char) -> Option<ScanState> {
    if st.in_tag {
        if c == '<' {
            None
        } else if c == '>' {
            end_tag(st)
        } else {
            Some(ScanState { buf: st.buf.push(c), ..st })
        }
    } else {
        if c == '<' {
            Some(ScanState { in_tag: true, buf: Seq::empty(), ..st })
        } else {
            Some(ScanState { out: st.out.push(c), ..st })
        }
    }
}

/// The scanner's state after the first `n` characters of `s`, or
/// `None` if some prefix of them is malformed.
pub open spec fn scan_prefix(s: Seq<char>, n: int) -> Option<ScanState>
    decreases n,
{
    if n <= 0 {
        Some(scan_init())
    } else {
        match scan_prefix(s, n - 1) {
            None => None,
            Some(st) => scan_step(st, s[n - 1]),
        }
    }
}

/// The flattened text of a markup string: every character standing
/// outside the tags, in order; `None` if the markup is malformed or
/// leaves a tag or an element open.
pub open spec fn flatten_spec(s: Seq<char>) -> Option<Seq<char>> {
    match scan_prefix(s, s.len() as int) {
        None => None,
        Some(st) => if st.in_tag || st.stack.len() > 0 {
            None
        } else {
            Some(st.out)
        },
    }
}

/// A markup validates a content exactly when its flattened text is
/// that content, character for character.
pub open spec fn validate_spec(markup: Seq<char>, content: Seq<char>) -> bool {
    flatten_spec(markup) == Some(content)
}

/// Law: validation is stable.  Each run of [`validate`] returns
/// `validate_spec` of its inputs and nothing else, so any two runs
/// on the same markup and content return the same boolean.
pub proof fn lemma_validate_stable(markup: Seq<char>, content: Seq<char>, r1: bool, r2: bool)
    requires
        r1 == validate_spec(markup, content),
        r2 == validate_spec(markup, content),
    ensures
        r1 == r2,
{
}

/// Once some prefix of the markup is malformed, the whole of it is.
proof fn lemma_scan_none_extends(s: Seq<char>, i: int, j: int)
    requires
        0 <= i <= j,
        scan_prefix(s, i) is None,
    ensures
        scan_prefix(s, j) is None,
    decreases j - i,
{
    if i < j {
        lemma_scan_none_extends(s, i, j - 1);
    }
}

/// The views of a stack of tag names.
pub open spec fn views_of(s: Seq<Vec<char>>) -> Seq<Seq<char>> {
    s.map_values(|v: Vec<char>| v@)
}

/// Whether the body of a close tag (`/` plus a name) names the
/// element `top`.
fn close_matches(buf: &Vec<char>, top: &Vec<char>) -> (r: bool)
    requires
        buf@.len() >= 1,
    ensures
        r == (buf@.skip(1) == top@ && buf@.len() >= 2),
{
    if buf.len() < 2 || buf.len() - 1 != top.len() {
        assert(buf@.skip(1).len() == buf@.len() - 1);
        return false;
    }
    let mut k: usize = 0;
    while k < top.len()
        invariant
            buf@.len() == top@.len() + 1,
            0 <= k <= top@.len(),
            forall|m: int| 0 <= m < k ==> buf@[m + 1] == top@[m],
        decreases top@.len() - k,
    {
        if buf[k + 1] != top[k] {
            assert(buf@.skip(1)[k as int] != top@[k as int]);
            return false;
        }
        k = k + 1;
    }
    assert(buf@.skip(1) =~= top@);
    true
}

/// Flattens a markup string to the text standing outside its tags,
/// or `None` if the markup is malformed.
pub fn flatten(markup: &str) -> (r: Option<Vec<char>>)
    ensures
        match r {
            Some(out) => flatten_spec(markup@) == Some(out@),
            None => flatten_spec(markup@) is None,
        },
{
    let n = markup.unicode_len();
    let mut in_tag = false;
    let mut buf: Vec<char> = Vec::new();
    let mut stack: Vec<Vec<char>> = Vec::new();
    let mut out: Vec<char> = Vec::new();
    let mut i: usize = 0;
    proof {
        assert(views_of(stack@) =~= Seq::<Seq<char>>::empty());
    }
    while i < n
        invariant
            n == markup@.len(),
            0 <= i <= n,
            scan_prefix(markup@, i as int) == Some(
                ScanState { in_tag, buf: buf@, stack: views_of(stack@), out: out@ },
            ),
        decreases n - i,
    {
        let ghost pre = ScanState { in_tag, buf: buf@, stack: views_of(stack@), out: out@ };
        let c = markup.get_char(i);
        if in_tag {
            if c == '<' {
                proof {
                    lemma_scan_none_extends(markup@, i + 1, markup@.len() as int);
                }
                return None;
            } else if c == '>' {
                if buf.len() == 0 {
                    proof {
                        lemma_scan_none_extends(markup@, i + 1, markup@.len() as int);
                    }
                    return None;
                } else if buf[0] == '/' {
                    let matched = if stack.len() > 0 {
                        let top_index = stack.len() - 1;
                        close_matches(&buf, &stack[top_index])
                    } else {
                        false
                    };
                    if !matched {
                        proof {
                            assert(scan_step(pre, c) is None);
                            lemma_scan_none_extends(markup@, i + 1, markup@.len() as int);
                        }
                        return None;
                    }
                    let _ = stack.pop();
                    in_tag = false;
                    buf = Vec::new();
                    proof {
                        assert(views_of(stack@) =~= pre.stack.drop_last());
                    }
                } else if buf[buf.len() - 1] == '/' {
                    in_tag = false;
                    buf = Vec::new();
                } else {
                    stack.push(buf);
                    in_tag = false;
                    buf = Vec::new();
                    proof {
                        assert(views_of(stack@) =~= pre.stack.push(pre.buf));
                    }
                }
            } else {
                buf.push(c);
            }
        } else {
            if c == '<' {
                in_tag = true;
                buf = Vec::new();
            } else {
                out.push(c);
            }
        }
        i = i + 1;
    }
    if in_tag || stack.len() > 0 {
        return None;
    }
    Some(out)
}

/// Whether the flattened characters equal the content, character for
/// character.
fn chars_equal_str(v: &Vec<char>, s: &str) -> (r: bool)
    ensures
        r == (v@ == s@),
{
    let n = s.unicode_len();
    if v.len() != n {
        return false;
    }
    let mut k: usize = 0;
    while k < n
        invariant
            n == s@.len(),
            v@.len() == n,
            0 <= k <= n,
            forall|m: int| 0 <= m < k ==> v@[m] == s@[m],
        decreases n - k,
    {
        if v[k] != s.get_char(k) {
            return false;
        }
        k = k + 1;
    }
    assert(v@ =~= s@);
    true
}

/// Decides whether `markup` annotates exactly the text `content`:
/// true exactly when the markup is well formed and the concatenation
/// of its text outside tags equals `content`.  The result depends on
/// the two strings alone.
pub fn validate(markup: &str, content: &str) -> (r: bool)
    ensures
        r == validate_spec(markup@, content@),
{
    match flatten(markup) {
        None => false,
        Some(out) => chars_equal_str(&out, content),
    }
}

} // verus!

//! Characters and character sequences: the lexicographic order used to sort
//! listings, the whitespace splitting used by the command interpreter, and
//! the path operations (base name, parent directory, joining) of the browser.
use vstd::prelude::*;
use vstd::string::StrSliceExecFns;
use vstd::string::StringExecFns;

verus! {

/// The ASCII whitespace characters on which command input splits.
pub open spec fn is_ascii_ws(c: char) -> bool {
    c == ' ' || c == '\t' || c == '\n' || c == '\r' || c == '\u{000C}'
}

/// Whether a character is ASCII whitespace.
pub fn char_is_ascii_ws(c: char) -> (r: bool)
    ensures
        r == is_ascii_ws(c),
{
    c == ' ' || c == '\t' || c == '\n' || c == '\r' || c == '\u{000C}'
}

/// The characters of a vector from the given position on.
pub fn vec_suffix(v: &Vec<char>, from: usize) -> (r: Vec<char>)
    requires
        from <= v@.len(),
    ensures
        r@ == v@.skip(from as int),
{
    let mut r: Vec<char> = Vec::new();
    let mut i: usize = from;
    while i < v.len()
        invariant
            from <= i <= v@.len(),
            r@ == v@.subrange(from as int, i as int),
        decreases v@.len() - i,
    {
        r.push(v[i]);
        proof {
            assert(v@.subrange(from as int, i as int).push(v@[i as int]) =~= v@.subrange(
                from as int,
                i as int + 1,
            ));
        }
        i = i + 1;
    }
    proof {
        assert(v@.subrange(from as int, v@.len() as int) =~= v@.skip(from as int));
    }
    r
}

/// Lexicographic "less or equal" on character sequences, by code point.
pub open spec fn chars_le(a: Seq<char>, b: Seq<char>) -> bool
    decreases a.len(),
{
    if a.len() == 0 {
        true
    } else if b.len() == 0 {
        false
    } else if a[0] != b[0] {
        (a[0] as u32) < (b[0] as u32)
    } else {
        chars_le(a.skip(1), b.skip(1))
    }
}

pub proof fn lemma_chars_le_refl(a: Seq<char>)
    ensures
        chars_le(a, a),
    decreases a.len(),
{
    if a.len() > 0 {
        lemma_chars_le_refl(a.skip(1));
    }
}

pub proof fn lemma_chars_le_total(a: Seq<char>, b: Seq<char>)
    ensures
        chars_le(a, b) || chars_le(b, a),
    decreases a.len(),
{
    if a.len() > 0 && b.len() > 0 {
        if a[0] == b[0] {
            lemma_chars_le_total(a.skip(1), b.skip(1));
        } else {
            assert(a[0] as u32 != b[0] as u32) by {
                vstd::utf8::char_u32_cast(a[0], a[0] as u32);
                vstd::utf8::char_u32_cast(b[0], b[0] as u32);
            }
        }
    }
}

pub proof fn lemma_chars_le_antisym(a: Seq<char>, b: Seq<char>)
    requires
        chars_le(a, b),
        chars_le(b, a),
    ensures
        a == b,
    decreases a.len(),
{
    if a.len() == 0 {
        assert(b.len() == 0);
        assert(a =~= b);
    } else {
        assert(a[0] == b[0]);
        lemma_chars_le_antisym(a.skip(1), b.skip(1));
        assert forall|i: int| 0 <= i < a.len() implies a[i] == b[i] by {
            if i > 0 {
                assert(a[i] == a.skip(1)[i - 1]);
                assert(b[i] == b.skip(1)[i - 1]);
            }
        }
        assert(a =~= b);
    }
}

pub proof fn lemma_chars_le_trans(a: Seq<char>, b: Seq<char>, c: Seq<char>)
    requires
        chars_le(a, b),
        chars_le(b, c),
    ensures
        chars_le(a, c),
    decreases a.len(),
{
    if a.len() > 0 {
        assert(b.len() > 0);
        assert(c.len() > 0);
        if a[0] == b[0] && b[0] == c[0] {
            lemma_chars_le_trans(a.skip(1), b.skip(1), c.skip(1));
        }
    }
}

/// Lexicographic comparison of two strings, character by character.
pub fn str_le(a: &str, b: &str) -> (r: bool)
    ensures
        r == chars_le(a@, b@),
{
    let a_len: usize = a.unicode_len();
    let b_len: usize = b.unicode_len();
    let mut i: usize = 0;
    proof {
        assert(a@.skip(0) =~= a@);
        assert(b@.skip(0) =~= b@);
    }
    loop
        invariant
            i <= a_len,
            i <= b_len,
            a_len == a@.len(),
            b_len == b@.len(),
            chars_le(a@, b@) == chars_le(a@.skip(i as int), b@.skip(i as int)),
        ensures
            chars_le(a@, b@) == chars_le(a@.skip(i as int), b@.skip(i as int)),
            i == a_len || (i < a_len && i == b_len) || (i < a_len && i < b_len && a@[i as int]
                != b@[i as int]),
        decreases a_len - i,
    {
        if i == a_len {
            break ;
        }
        if i == b_len {
            break ;
        }
        let ca: char = a.get_char(i);
        let cb: char = b.get_char(i);
        if ca != cb {
            break ;
        }
        proof {
            assert(a@.skip(i as int).skip(1) =~= a@.skip(i as int + 1));
            assert(b@.skip(i as int).skip(1) =~= b@.skip(i as int + 1));
            assert(a@.skip(i as int)[0] == a@[i as int]);
            assert(b@.skip(i as int)[0] == b@[i as int]);
        }
        i = i + 1;
    }
    proof {
        if i < a_len && i < b_len {
            assert(a@.skip(i as int)[0] == a@[i as int]);
            assert(b@.skip(i as int)[0] == b@[i as int]);
        }
    }
    if i == a_len {
        true
    } else if i == b_len {
        false
    } else {
        let ca: char = a.get_char(i);
        let cb: char = b.get_char(i);
        (ca as u32) < (cb as u32)
    }
}

/// Relies on String::push from std: appends exactly one character.
#[verifier::external_body]
pub fn push_char(s: &mut String, c: char)
    ensures
        final(s)@ == old(s)@.push(c),
{
    s.push(c);
}

/// Builds the string holding exactly the given characters.
pub fn chars_to_string(cs: &Vec<char>) -> (r: String)
    ensures
        r@ == cs@,
{
    let mut s = String::new();
    let mut i: usize = 0;
    while i < cs.len()
        invariant
            i <= cs.len(),
            s@ == cs@.subrange(0, i as int),
        decreases cs.len() - i,
    {
        push_char(&mut s, cs[i]);
        proof {
            assert(cs@.subrange(0, i as int).push(cs@[i as int]) =~= cs@.subrange(
                0,
                i as int + 1,
            ));
        }
        i = i + 1;
    }
    proof {
        assert(cs@.subrange(0, cs@.len() as int) =~= cs@);
    }
    s
}

/// The characters of a string, in order.
pub fn str_to_chars(s: &str) -> (r: Vec<char>)
    ensures
        r@ == s@,
{
    let n: usize = s.unicode_len();
    let mut v: Vec<char> = Vec::new();
    let mut i: usize = 0;
    while i < n
        invariant
            i <= n,
            n == s@.len(),
            v@ == s@.subrange(0, i as int),
        decreases n - i,
    {
        v.push(s.get_char(i));
        proof {
            assert(s@.subrange(0, i as int).push(s@[i as int]) =~= s@.subrange(0, i as int + 1));
        }
        i = i + 1;
    }
    proof {
        assert(s@.subrange(0, s@.len() as int) =~= s@);
    }
    v
}

/// The path component after the last separator; empty when the path ends in
/// a separator.
pub open spec fn basename(p: Seq<char>) -> Seq<char>
    decreases p.len(),
{
    if p.len() == 0 {
        Seq::empty()
    } else if p.last() == '/' {
        Seq::empty()
    } else {
        basename(p.drop_last()).push(p.last())
    }
}

/// The base name of a path: everything after the last `/`.
pub fn base_name(path: &str) -> (r: String)
    ensures
        r@ == basename(path@),
{
    let n: usize = path.unicode_len();
    let mut s = String::new();
    let mut i: usize = 0;
    while i < n
        invariant
            i <= n,
            n == path@.len(),
            s@ == basename(path@.subrange(0, i as int)),
        decreases n - i,
    {
        let c: char = path.get_char(i);
        if c == '/' {
            s = String::new();
        } else {
            push_char(&mut s, c);
        }
        proof {
            assert(path@.subrange(0, i as int + 1).drop_last() =~= path@.subrange(0, i as int));
            assert(path@.subrange(0, i as int + 1).last() == path@[i as int]);
        }
        i = i + 1;
    }
    proof {
        assert(path@.subrange(0, path@.len() as int) =~= path@);
    }
    s
}

/// The path up to (excluding) the last separator; empty when there is none.
pub open spec fn parent_raw(p: Seq<char>) -> Seq<char>
    decreases p.len(),
{
    if p.len() == 0 {
        Seq::empty()
    } else if p.last() == '/' {
        p.drop_last()
    } else {
        parent_raw(p.drop_last())
    }
}

/// The parent directory of a path: the part before the last separator, or
/// the root when that part is empty.
pub open spec fn parent_dir(p: Seq<char>) -> Seq<char> {
    if parent_raw(p).len() == 0 {
        seq!['/']
    } else {
        parent_raw(p)
    }
}

/// The parent directory of a path, per `parent_dir`.
pub fn parent_directory(path: &str) -> (r: String)
    ensures
        r@ == parent_dir(path@),
{
    let n: usize = path.unicode_len();
    let mut j: usize = n;
    proof {
        assert(path@.subrange(0, n as int) =~= path@);
    }
    loop
        invariant
            j <= n,
            n == path@.len(),
            parent_raw(path@) == parent_raw(path@.subrange(0, j as int)),
        ensures
            j <= n,
            parent_raw(path@) == parent_raw(path@.subrange(0, j as int)),
            j == 0 || path@[j as int - 1] == '/',
        decreases j,
    {
        if j == 0 {
            break ;
        }
        let c: char = path.get_char(j - 1);
        if c == '/' {
            break ;
        }
        proof {
            assert(path@.subrange(0, j as int).drop_last() =~= path@.subrange(0, j as int - 1));
            assert(path@.subrange(0, j as int).last() == path@[j as int - 1]);
        }
        j = j - 1;
    }
    if j == 0 {
        proof {
            assert(path@.subrange(0, 0) =~= Seq::<char>::empty());
            reveal_strlit("/");
            assert("/"@ =~= seq!['/']);
        }
        String::from_str("/")
    } else {
        proof {
            assert(path@.subrange(0, j as int).drop_last() =~= path@.subrange(0, j as int - 1));
            assert(path@.subrange(0, j as int).last() == path@[j as int - 1]);
        }
        let prefix: &str = path.substring_char(0, j - 1);
        if j == 1 {
            proof {
                assert(path@.subrange(0, 0) =~= Seq::<char>::empty());
                reveal_strlit("/");
                assert("/"@ =~= seq!['/']);
            }
            String::from_str("/")
        } else {
            String::from_str(prefix)
        }
    }
}

/// The views of a sequence of character vectors, token by token.
pub open spec fn views_of(v: Seq<Vec<char>>) -> Seq<Seq<char>> {
    Seq::new(v.len(), |i: int| v[i]@)
}

/// The whitespace-separated tokens of a character sequence, in order.
pub open spec fn tokens_of(s: Seq<char>) -> Seq<Seq<char>>
    decreases s.len(),
{
    if s.len() == 0 {
        Seq::empty()
    } else {
        let rest = tokens_of(s.drop_last());
        let c = s.last();
        if is_ascii_ws(c) {
            rest
        } else if s.len() >= 2 && !is_ascii_ws(s[s.len() - 2]) {
            rest.update(rest.len() - 1, rest.last().push(c))
        } else {
            rest.push(seq![c])
        }
    }
}

proof fn lemma_tokens_nonempty(s: Seq<char>)
    requires
        s.len() > 0,
        !is_ascii_ws(s.last()),
    ensures
        tokens_of(s).len() > 0,
    decreases s.len(),
{
    if s.len() >= 2 && !is_ascii_ws(s[s.len() - 2]) {
        lemma_tokens_nonempty(s.drop_last());
    }
}

/// Splits characters into their whitespace-separated tokens.
pub fn tokenize(s: &Vec<char>) -> (r: Vec<Vec<char>>)
    ensures
        views_of(r@) == tokens_of(s@),
{
    let mut toks: Vec<Vec<char>> = Vec::new();
    let mut i: usize = 0;
    proof {
        assert(s@.subrange(0, 0) =~= Seq::<char>::empty());
        assert(views_of(toks@) =~= tokens_of(s@.subrange(0, 0)));
    }
    while i < s.len()
        invariant
            i <= s@.len(),
            views_of(toks@) == tokens_of(s@.subrange(0, i as int)),
        decreases s@.len() - i,
    {
        let c: char = s[i];
        let ghost pre = s@.subrange(0, i as int);
        proof {
            assert(s@.subrange(0, i as int + 1).drop_last() =~= pre);
            assert(s@.subrange(0, i as int + 1).last() == s@[i as int]);
            if i >= 1 {
                assert(s@.subrange(0, i as int + 1)[i as int - 1] == s@[i as int - 1]);
                assert(pre.last() == s@[i as int - 1]);
            }
        }
        if char_is_ascii_ws(c) {
            // token break: nothing to add
        } else if i >= 1 && !char_is_ascii_ws(s[i - 1]) {
            proof {
                lemma_tokens_nonempty(pre);
            }
            let mut t: Vec<char> = toks.pop().unwrap();
            let ghost old_toks = toks@.push(t);
            t.push(c);
            toks.push(t);
            proof {
                assert(views_of(toks@) =~= views_of(old_toks).update(
                    views_of(old_toks).len() - 1,
                    views_of(old_toks).last().push(c),
                ));
            }
        } else {
            let mut t: Vec<char> = Vec::new();
            t.push(c);
            let ghost old_toks = toks@;
            toks.push(t);
            proof {
                assert(views_of(toks@) =~= views_of(old_toks).push(seq![c]));
            }
        }
        i = i + 1;
    }
    proof {
        assert(s@.subrange(0, s@.len() as int) =~= s@);
    }
    toks
}

/// Whether one character equals another up to ASCII case, the second taken
/// as the reference letter.
pub open spec fn upeq(t: char, u: char) -> bool {
    t == u || ('A' as u32 <= u as u32 && u as u32 <= 'Z' as u32 && t as u32 == u as u32 + 32)
}

/// Whether a token names the given verb, matched without regard to ASCII
/// case.
pub open spec fn verb_matches(tok: Seq<char>, verb: Seq<char>) -> bool {
    tok.len() == verb.len() && (forall|i: int|
        0 <= i < tok.len() ==> upeq(tok[i], #[trigger] verb[i]))
}

/// Case-insensitive comparison of a token against a verb literal.
pub fn token_is_verb(tok: &Vec<char>, verb: &str) -> (r: bool)
    ensures
        r == verb_matches(tok@, verb@),
{
    let n: usize = verb.unicode_len();
    if tok.len() != n {
        return false;
    }
    let mut i: usize = 0;
    while i < n
        invariant
            i <= n,
            n == verb@.len(),
            n == tok@.len(),
            forall|k: int| 0 <= k < i ==> upeq(tok@[k], #[trigger] verb@[k]),
        decreases n - i,
    {
        let t: char = tok[i];
        let u: char = verb.get_char(i);
        let m: bool = t == u || (('A' as u32) <= (u as u32) && (u as u32) <= ('Z' as u32) && (t
            as u32) == (u as u32) + 32);
        if !m {
            proof {
                assert(!upeq(tok@[i as int], verb@[i as int]));
            }
            return false;
        }
        i = i + 1;
    }
    true
}

/// Tokens re-joined with a single space between consecutive tokens.
pub open spec fn join_spaces(toks: Seq<Seq<char>>) -> Seq<char>
    decreases toks.len(),
{
    if toks.len() == 0 {
        Seq::empty()
    } else if toks.len() == 1 {
        toks[0]
    } else {
        join_spaces(toks.drop_last()) + seq![' '] + toks.last()
    }
}

/// Joins the tokens from the given position on with single spaces.
pub fn join_tokens_from(toks: &Vec<Vec<char>>, from: usize) -> (r: String)
    requires
        from <= toks@.len(),
    ensures
        r@ == join_spaces(views_of(toks@).skip(from as int)),
{
    let mut s = String::new();
    let mut k: usize = from;
    proof {
        assert(views_of(toks@).skip(from as int).subrange(0, 0) =~= Seq::<Seq<char>>::empty());
    }
    while k < toks.len()
        invariant
            from <= k <= toks@.len(),
            s@ == join_spaces(views_of(toks@).subrange(from as int, k as int)),
        decreases toks@.len() - k,
    {
        if k > from {
            push_char(&mut s, ' ');
        }
        let t = chars_to_string(&toks[k]);
        s.append(t.as_str());
        proof {
            let all = views_of(toks@);
            assert(all.subrange(from as int, k as int + 1).drop_last() =~= all.subrange(
                from as int,
                k as int,
            ));
            assert(all.subrange(from as int, k as int + 1).last() == toks@[k as int]@);
            if k == from {
                assert(all.subrange(from as int, k as int + 1).len() == 1);
                assert(all.subrange(from as int, k as int + 1)[0] == toks@[k as int]@);
                assert(s@ == toks@[k as int]@);
            }
        }
        k = k + 1;
    }
    proof {
        assert(views_of(toks@).subrange(from as int, toks@.len() as int) =~= views_of(
            toks@,
        ).skip(from as int));
    }
    s
}

/// Law: ascending from a first-level directory lands at the root.
pub proof fn lemma_parent_of_first_level(p: Seq<char>)
    requires
        p.len() >= 2,
        p[0] == '/',
        forall|k: int| 1 <= k < p.len() ==> p[k] != '/',
    ensures
        parent_dir(p) == seq!['/'],
    decreases p.len(),
{
    assert(p.last() == p[p.len() - 1]);
    assert(p[p.len() - 1] != '/');
    assert(parent_raw(p) == parent_raw(p.drop_last()));
    if p.len() == 2 {
        assert(p.drop_last().len() == 1);
        assert(p.drop_last().last() == p[0]);
        assert(p.drop_last().drop_last() =~= Seq::<char>::empty());
        assert(parent_raw(p.drop_last()) =~= Seq::<char>::empty());
    } else {
        assert(p.drop_last()[0] == p[0]);
        assert(forall|k: int| 1 <= k < p.drop_last().len() ==> #[trigger] p.drop_last()[k] == p[k]);
        lemma_parent_of_first_level(p.drop_last());
    }
}

/// A directory path joined with a child name by a single separator.
pub open spec fn join_path_spec(dir: Seq<char>, name: Seq<char>) -> Seq<char> {
    dir + seq!['/'] + name
}

/// Joins a directory path and a child name with a `/` between them.
pub fn join_path(dir: &str, name: &str) -> (r: String)
    ensures
        r@ == join_path_spec(dir@, name@),
{
    let mut s = String::from_str(dir);
    push_char(&mut s, '/');
    s.append(name);
    proof {
        assert(dir@.push('/') =~= dir@ + seq!['/']);
    }
    s
}

} // verus!

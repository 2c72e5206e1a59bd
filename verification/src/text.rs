//! Character-level helpers on the node's textual values (addresses, peer ids, hashes).
use vstd::prelude::*;

verus! {

/// `String::push` from std: appends one character.
#[verifier::external_body]
fn string_push(s: &mut String, c: char)
    ensures
        final(s)@ == old(s)@.push(c),
{
    s.push(c);
}

/// The characters of `s`, in order.
pub fn chars_of(s: &str) -> (v: Vec<char>)
    ensures
        v@ == s@,
{
    let mut v: Vec<char> = Vec::new();
    for c in it: s.chars()
        invariant
            v@ == it.seq().take(it.index() as int),
            it.seq() == s@,
    {
        v.push(c);
    }
    v
}

/// A `String` holding exactly the characters of `v`.
pub fn string_from_chars(v: &Vec<char>) -> (s: String)
    ensures
        s@ == v@,
{
    let mut s = String::new();
    let mut i: usize = 0;
    while i < v.len()
        invariant
            i <= v.len(),
            s@ == v@.take(i as int),
        decreases v.len() - i,
    {
        string_push(&mut s, v[i]);
        i = i + 1;
        assert(v@.take(i as int) =~= v@.take((i - 1) as int).push(v@[i - 1]));
    }
    assert(v@.take(v.len() as int) =~= v@);
    s
}

/// `needle` occurs in `hay` at index `i`.
pub open spec fn occurs_at(hay: Seq<char>, needle: Seq<char>, i: int) -> bool {
    0 <= i && i + needle.len() <= hay.len() && hay.subrange(i, i + needle.len()) == needle
}

/// `needle` occurs somewhere in `hay` (the empty text occurs in every text).
pub open spec fn has_substring(hay: Seq<char>, needle: Seq<char>) -> bool {
    exists|i: int| occurs_at(hay, needle, i)
}

fn matches_at(hay: &Vec<char>, needle: &Vec<char>, i: usize) -> (r: bool)
    requires
        i + needle@.len() <= hay@.len(),
    ensures
        r == (hay@.subrange(i as int, i + needle@.len()) == needle@),
{
    let hl = hay.len();
    let mut j: usize = 0;
    while j < needle.len()
        invariant
            hl == hay@.len(),
            j <= needle@.len(),
            i + needle@.len() <= hay@.len(),
            forall|k: int| 0 <= k < j ==> hay@[i + k] == needle@[k],
        decreases needle.len() - j,
    {
        if hay[i + j] != needle[j] {
            assert(hay@.subrange(i as int, i + needle@.len())[j as int] != needle@[j as int]);
            return false;
        }
        j = j + 1;
    }
    assert(hay@.subrange(i as int, i + needle@.len()) =~= needle@);
    true
}

/// Whether `needle` occurs in `hay` (`str::contains` with a string pattern).
pub fn contains_text(hay: &String, needle: &String) -> (r: bool)
    ensures
        r == has_substring(hay@, needle@),
{
    let h = chars_of(hay.as_str());
    let n = chars_of(needle.as_str());
    if n.len() == 0 {
        assert(hay@.subrange(0, 0) =~= needle@);
        assert(occurs_at(hay@, needle@, 0));
        return true;
    }
    if n.len() > h.len() {
        return false;
    }
    let hl = h.len();
    let last = h.len() - n.len();
    let mut i: usize = 0;
    while i <= last
        invariant
            hl == h@.len(),
            h@ == hay@,
            n@ == needle@,
            n@.len() > 0,
            last == h@.len() - n@.len(),
            i <= last + 1,
            forall|k: int| 0 <= k < i ==> !occurs_at(hay@, needle@, k),
        decreases last + 1 - i,
    {
        if matches_at(&h, &n, i) {
            assert(occurs_at(hay@, needle@, i as int));
            return true;
        }
        i = i + 1;
    }
    assert forall|k: int| !occurs_at(hay@, needle@, k) by {
        if 0 <= k && k < i {
        }
    }
    false
}

/// `s` with every leading copy of `p` taken off (`str::trim_start_matches`); with an
/// empty `p`, `s` itself.
pub open spec fn trim_start(s: Seq<char>, p: Seq<char>) -> Seq<char>
    decreases s.len(),
{
    if p.len() > 0 && p.len() <= s.len() && s.subrange(0, p.len() as int) == p {
        trim_start(s.subrange(p.len() as int, s.len() as int), p)
    } else {
        s
    }
}

/// The text before the first `sep` (the first item of `str::split`), or all of `s`.
pub open spec fn first_segment(s: Seq<char>, sep: char) -> Seq<char>
    decreases s.len(),
{
    if s.len() == 0 {
        s
    } else if s[0] == sep {
        Seq::empty()
    } else {
        seq![s[0]] + first_segment(s.drop_first(), sep)
    }
}

/// The IP part of a multiaddress text such as `/ip4/1.2.3.4/tcp/5/p2p/...`: the leading
/// `/ip4/`s taken off, then the text up to the next `/`.
pub open spec fn ip_of(addr: Seq<char>) -> Seq<char> {
    first_segment(trim_start(addr, "/ip4/"@), '/')
}

proof fn lemma_first_segment_take(s: Seq<char>, sep: char, i: int)
    requires
        0 <= i <= s.len(),
        forall|k: int| 0 <= k < i ==> s[k] != sep,
    ensures
        first_segment(s, sep) == s.take(i) + first_segment(s.skip(i), sep),
    decreases i,
{
    if i > 0 {
        lemma_first_segment_take(s.drop_first(), sep, i - 1);
        assert(s.drop_first().take(i - 1) =~= s.take(i).drop_first());
        assert(s.drop_first().skip(i - 1) =~= s.skip(i));
        assert(seq![s[0]] + s.take(i).drop_first() =~= s.take(i));
        assert(first_segment(s, sep) == seq![s[0]] + first_segment(s.drop_first(), sep));
        assert((seq![s[0]] + s.take(i).drop_first()) + first_segment(s.skip(i), sep)
            =~= seq![s[0]] + (s.take(i).drop_first() + first_segment(s.skip(i), sep)));
    } else {
        assert(s.take(0) =~= Seq::<char>::empty());
        assert(s.skip(0) =~= s);
        assert(Seq::<char>::empty() + first_segment(s, sep) =~= first_segment(s, sep));
    }
}

/// The IP part of a multiaddress text (see `ip_of`).
pub fn ip_of_address(addr: &String) -> (ip: String)
    ensures
        ip@ == ip_of(addr@),
{
    let s = chars_of(addr.as_str());
    let p = chars_of("/ip4/");
    proof { reveal_strlit("/ip4/"); }
    assert(p@ == "/ip4/"@);
    let mut start: usize = 0;
    let mut done = false;
    assert(s@.skip(0) =~= s@);
    while !done
        invariant
            p@ == "/ip4/"@,
            p@.len() == 5,
            start <= s@.len(),
            trim_start(s@, p@) == trim_start(s@.skip(start as int), p@),
            done ==> trim_start(s@.skip(start as int), p@) == s@.skip(start as int),
        decreases s@.len() - start + (if done { 0int } else { 1int }),
    {
        let ghost rest = s@.skip(start as int);
        if s.len() >= 5 && start <= s.len() - 5 {
            assert(rest.subrange(0, 5) =~= s@.subrange(start as int, start + 5));
            if matches_at(&s, &p, start) {
                assert(rest.subrange(5, rest.len() as int) =~= s@.skip(start + 5));
                start = start + 5;
            } else {
                done = true;
            }
        } else {
            done = true;
        }
    }
    let ghost t = s@.skip(start as int);
    let mut out: Vec<char> = Vec::new();
    let mut i: usize = start;
    while i < s.len() && s[i] != '/'
        invariant
            start <= i <= s@.len(),
            t == s@.skip(start as int),
            out@ == t.take(i - start),
            forall|k: int| 0 <= k < i - start ==> t[k] != '/',
        decreases s.len() - i,
    {
        out.push(s[i]);
        i = i + 1;
        assert(out@ =~= t.take(i - start));
    }
    proof {
        lemma_first_segment_take(t, '/', i - start);
        let r = t.skip(i - start);
        if r.len() > 0 {
            assert(r[0] == '/');
        }
        assert(first_segment(r, '/') =~= Seq::<char>::empty());
        assert(t.take(i - start) + Seq::<char>::empty() =~= t.take(i - start));
    }
    string_from_chars(&out)
}

/// The text after the first `sep`, or nothing when `s` holds no `sep`.
pub open spec fn after_first(s: Seq<char>, sep: char) -> Option<Seq<char>>
    decreases s.len(),
{
    if s.len() == 0 {
        None
    } else if s[0] == sep {
        Some(s.drop_first())
    } else {
        after_first(s.drop_first(), sep)
    }
}

/// Item `n` (from 0) of `str::split(sep)` on `s`, or nothing when there are fewer items.
pub open spec fn nth_segment(s: Seq<char>, sep: char, n: nat) -> Option<Seq<char>>
    decreases n,
{
    if n == 0 {
        Some(first_segment(s, sep))
    } else {
        match after_first(s, sep) {
            Some(r) => nth_segment(r, sep, (n - 1) as nat),
            None => None,
        }
    }
}

proof fn lemma_after_first_skip(s: Seq<char>, sep: char, i: int)
    requires
        0 <= i <= s.len(),
        forall|k: int| 0 <= k < i ==> s[k] != sep,
    ensures
        after_first(s, sep) == after_first(s.skip(i), sep),
    decreases i,
{
    if i > 0 {
        assert(s[0] != sep);
        assert(after_first(s, sep) == after_first(s.drop_first(), sep));
        lemma_after_first_skip(s.drop_first(), sep, i - 1);
        assert(s.drop_first().skip(i - 1) =~= s.skip(i));
    } else {
        assert(s.skip(0) =~= s);
    }
}

proof fn lemma_segments_at(s: Seq<char>, sep: char, i: int)
    requires
        0 <= i <= s.len(),
        forall|k: int| 0 <= k < i ==> s[k] != sep,
        i == s.len() || s[i] == sep,
    ensures
        first_segment(s, sep) == s.take(i),
        after_first(s, sep) == if i == s.len() { None } else { Some(s.skip(i + 1)) },
{
    lemma_first_segment_take(s, sep, i);
    lemma_after_first_skip(s, sep, i);
    if i == s.len() {
        assert(s.skip(i) =~= Seq::<char>::empty());
        assert(s.take(i) + Seq::<char>::empty() =~= s.take(i));
    } else {
        assert(s.skip(i)[0] == sep);
        assert(s.skip(i).drop_first() =~= s.skip(i + 1));
        assert(s.take(i) + Seq::<char>::empty() =~= s.take(i));
    }
}

/// Item `n` of the split of `c` from index `start` on.
fn segment_from(c: &Vec<char>, start: usize, sep: char, n: usize) -> (r: Option<Vec<char>>)
    requires
        start <= c@.len(),
    ensures
        match nth_segment(c@.skip(start as int), sep, n as nat) {
            Some(t) => r matches Some(v) && v@ == t,
            None => r is None,
        },
    decreases n,
{
    let ghost t = c@.skip(start as int);
    let mut j: usize = start;
    while j < c.len() && c[j] != sep
        invariant
            start <= j <= c@.len(),
            t == c@.skip(start as int),
            forall|k: int| 0 <= k < j - start ==> t[k] != sep,
        decreases c.len() - j,
    {
        j = j + 1;
    }
    proof {
        lemma_segments_at(t, sep, j - start);
        if j < c.len() {
            assert(t.skip(j - start + 1) =~= c@.skip(j + 1));
        }
    }
    if n == 0 {
        let mut v: Vec<char> = Vec::new();
        let mut k: usize = start;
        while k < j
            invariant
                start <= k <= j <= c@.len(),
                v@ == c@.subrange(start as int, k as int),
            decreases j - k,
        {
            v.push(c[k]);
            k = k + 1;
            assert(v@ =~= c@.subrange(start as int, k as int));
        }
        assert(t.take(j - start) =~= c@.subrange(start as int, j as int));
        Some(v)
    } else if j < c.len() {
        segment_from(c, j + 1, sep, n - 1)
    } else {
        None
    }
}

/// Item `n` (from 0) of `str::split(sep)` on `s`, or nothing when there are fewer items.
pub fn nth_segment_of(s: &String, sep: char, n: usize) -> (r: Option<String>)
    ensures
        match nth_segment(s@, sep, n as nat) {
            Some(t) => r matches Some(x) && x@ == t,
            None => r is None,
        },
{
    let c = chars_of(s.as_str());
    assert(c@.skip(0) =~= c@);
    match segment_from(&c, 0, sep, n) {
        Some(v) => Some(string_from_chars(&v)),
        None => None,
    }
}

/// `a` followed by `b`.
pub fn concat(a: &str, b: &str) -> (r: String)
    ensures
        r@ == a@ + b@,
{
    let mut v = chars_of(a);
    let w = chars_of(b);
    let ghost start = v@;
    let mut i: usize = 0;
    while i < w.len()
        invariant
            i <= w@.len(),
            v@ == start + w@.take(i as int),
        decreases w.len() - i,
    {
        v.push(w[i]);
        i = i + 1;
        assert(v@ =~= start + w@.take(i as int));
    }
    assert(w@.take(w@.len() as int) =~= w@);
    string_from_chars(&v)
}

} // verus!

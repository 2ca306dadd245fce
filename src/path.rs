//! Archive paths: resolution of hrefs against the package document,
//! normalisation of `.` and `..` segments, and percent-decoding.
use vstd::prelude::*;
use crate::text::{chars_of, string_of};
use vstd::string::StringSliceAdditionalSpecFns;

verus! {

/// A path separator: `/`, or `\` as written on some platforms.
pub open spec fn is_separator(c: char) -> bool {
    c == '/' || c == '\\'
}

/// Adds a finished segment to the stack of kept segments: empty and `.`
/// segments vanish, `..` removes the last kept segment (or nothing, when
/// none is left), any other segment is kept.
pub open spec fn close_segment(stack: Seq<Seq<char>>, seg: Seq<char>) -> Seq<Seq<char>> {
    if seg.len() == 0 || seg == seq!['.'] {
        stack
    } else if seg == seq!['.', '.'] {
        if stack.len() > 0 {
            stack.drop_last()
        } else {
            stack
        }
    } else {
        stack.push(seg)
    }
}

/// The kept segments and the unfinished segment after reading `w`,
/// starting from the kept segments `stack` and unfinished segment `cur`.
pub open spec fn scan_from(stack: Seq<Seq<char>>, cur: Seq<char>, w: Seq<char>) -> (Seq<Seq<char>>, Seq<char>)
    decreases w.len(),
{
    if w.len() == 0 {
        (stack, cur)
    } else {
        let (st, c) = scan_from(stack, cur, w.drop_last());
        if is_separator(w.last()) {
            (close_segment(st, c), Seq::empty())
        } else {
            (st, c.push(w.last()))
        }
    }
}

/// The segments of `p` that survive normalisation, in order.
pub open spec fn segments(p: Seq<char>) -> Seq<Seq<char>> {
    let (st, c) = scan_from(Seq::empty(), Seq::empty(), p);
    close_segment(st, c)
}

/// Whether `p` begins at the archive root.
pub open spec fn rooted(p: Seq<char>) -> bool {
    p.len() > 0 && is_separator(p[0])
}

/// The segments joined with `/`.
pub open spec fn join(segs: Seq<Seq<char>>) -> Seq<char>
    decreases segs.len(),
{
    if segs.len() == 0 {
        Seq::empty()
    } else if segs.len() == 1 {
        segs[0]
    } else {
        join(segs.drop_last()) + seq!['/'] + segs.last()
    }
}

/// `p` with `.` segments removed and each `..` collapsed against the
/// segment before it, joined with forward slashes.
pub open spec fn normalize(p: Seq<char>) -> Seq<char> {
    (if rooted(p) { seq!['/'] } else { Seq::empty() }) + join(segments(p))
}

/// Where the last separator of `p` ends (zero when there is none).
pub open spec fn dir_end(p: Seq<char>) -> nat
    decreases p.len(),
{
    if p.len() == 0 {
        0
    } else if is_separator(p.last()) {
        p.len()
    } else {
        dir_end(p.drop_last())
    }
}

/// The directory part of `p`, up to and including its last separator.
pub open spec fn parent_dir(p: Seq<char>) -> Seq<char> {
    p.subrange(0, dir_end(p) as int)
}

/// The archive path that `href`, written in the document at `doc_path`, names.
pub open spec fn resolve(doc_path: Seq<char>, href: Seq<char>) -> Seq<char> {
    if rooted(href) {
        normalize(href)
    } else {
        normalize(parent_dir(doc_path) + href)
    }
}

/// A segment that normalisation keeps.
pub open spec fn plain_segment(seg: Seq<char>) -> bool {
    &&& seg.len() > 0
    &&& seg != seq!['.']
    &&& seg != seq!['.', '.']
    &&& forall|i: int| 0 <= i < seg.len() ==> !is_separator(#[trigger] seg[i])
}

/// The value of a hexadecimal digit byte.
pub open spec fn hex_digit(b: u8) -> Option<u8> {
    if 0x30 <= b <= 0x39 {
        Some((b - 0x30) as u8)
    } else if 0x61 <= b <= 0x66 {
        Some((b - 0x61 + 10) as u8)
    } else if 0x41 <= b <= 0x46 {
        Some((b - 0x41 + 10) as u8)
    } else {
        None
    }
}

/// `b` with each `%` followed by two hexadecimal digits replaced by the byte
/// that the digits give; every other byte stays.
pub open spec fn percent_decode(b: Seq<u8>) -> Seq<u8>
    decreases b.len(),
{
    if b.len() == 0 {
        Seq::empty()
    } else if b[0] == 0x25 && b.len() >= 3 && hex_digit(b[1]) is Some && hex_digit(b[2]) is Some {
        seq![(hex_digit(b[1])->0 * 16 + hex_digit(b[2])->0) as u8] + percent_decode(b.subrange(3, b.len() as int))
    } else {
        seq![b[0]] + percent_decode(b.drop_first())
    }
}

/// What `String::from_utf8_lossy` makes of `b`.
pub uninterp spec fn utf8_lossy(b: Seq<u8>) -> Seq<char>;

/// Relies on `String::from_utf8_lossy`: the result depends on the bytes
/// alone, and valid UTF-8 comes back as the text it encodes.
#[verifier::external_body]
pub(crate) fn from_utf8_lossy(b: &[u8]) -> (r: String)
    ensures
        r@ == utf8_lossy(b@),
        vstd::utf8::valid_utf8(b@) ==> r@ == vstd::utf8::decode_utf8(b@),
{
    String::from_utf8_lossy(b).to_string()
}

pub proof fn lemma_scan_concat(stack: Seq<Seq<char>>, cur: Seq<char>, a: Seq<char>, b: Seq<char>)
    ensures
        scan_from(stack, cur, a + b) == ({
            let (st, c) = scan_from(stack, cur, a);
            scan_from(st, c, b)
        }),
    decreases b.len(),
{
    if b.len() == 0 {
        assert(a + b =~= a);
    } else {
        lemma_scan_concat(stack, cur, a, b.drop_last());
        assert((a + b).drop_last() =~= a + b.drop_last());
        assert((a + b).last() == b.last());
    }
}

proof fn lemma_scan_plain(stack: Seq<Seq<char>>, cur: Seq<char>, w: Seq<char>)
    requires
        forall|i: int| 0 <= i < w.len() ==> !is_separator(#[trigger] w[i]),
    ensures
        scan_from(stack, cur, w) == (stack, cur + w),
    decreases w.len(),
{
    if w.len() == 0 {
        assert(cur + w =~= cur);
    } else {
        lemma_scan_plain(stack, cur, w.drop_last());
        assert((cur + w.drop_last()).push(w.last()) =~= cur + w);
    }
}

proof fn lemma_scan_slash(stack: Seq<Seq<char>>, cur: Seq<char>)
    ensures
        scan_from(stack, cur, seq!['/']) == (close_segment(stack, cur), Seq::<char>::empty()),
{
    assert(seq!['/'].drop_last() =~= Seq::<char>::empty());
    assert(scan_from(stack, cur, seq!['/'].drop_last()) == (stack, cur));
}

proof fn lemma_scan_join(segs: Seq<Seq<char>>)
    requires
        segs.len() > 0,
        forall|i: int| 0 <= i < segs.len() ==> plain_segment(#[trigger] segs[i]),
    ensures
        scan_from(Seq::empty(), Seq::empty(), join(segs)) == (segs.drop_last(), segs.last()),
        join(segs).len() > 0,
        join(segs)[0] == segs[0][0],
    decreases segs.len(),
{
    let e = Seq::<Seq<char>>::empty();
    let z = Seq::<char>::empty();
    if segs.len() == 1 {
        assert(plain_segment(segs[0]));
        lemma_scan_plain(e, z, segs[0]);
        assert(z + segs[0] =~= segs[0]);
        assert(segs.drop_last() =~= e);
        assert(join(segs) == segs[0]);
    } else {
        let init = segs.drop_last();
        assert forall|i: int| 0 <= i < init.len() implies plain_segment(#[trigger] init[i]) by {
            assert(init[i] == segs[i]);
        }
        lemma_scan_join(init);
        let last = segs.last();
        assert(plain_segment(segs[segs.len() - 1]));
        assert(join(segs) == join(init) + seq!['/'] + last);
        lemma_scan_concat(e, z, join(init) + seq!['/'], last);
        lemma_scan_concat(e, z, join(init), seq!['/']);
        lemma_scan_slash(init.drop_last(), init.last());
        assert(init.last() == segs[segs.len() - 2]);
        assert(plain_segment(init.last()));
        assert(init.drop_last().push(init.last()) =~= init);
        assert(close_segment(init.drop_last(), init.last()) == init);
        assert(scan_from(e, z, join(init) + seq!['/']) == (init, z));
        lemma_scan_plain(init, z, last);
        assert(z + last =~= last);
        assert(init[0] == segs[0]);
        assert((join(init) + seq!['/'] + last)[0] == join(init)[0]);
    }
}

/// The segments that survive normalisation are all plain.
pub proof fn lemma_segments_plain(p: Seq<char>)
    ensures
        forall|i: int| 0 <= i < segments(p).len() ==> plain_segment(#[trigger] segments(p)[i]),
{
    lemma_scan_invariant(p);
    let (st, c) = scan_from(Seq::empty(), Seq::empty(), p);
    if !(c.len() == 0 || c == seq!['.'] || c == seq!['.', '.']) {
        assert forall|i: int| 0 <= i < segments(p).len() implies plain_segment(#[trigger] segments(p)[i]) by {
            if i < st.len() {
                assert(segments(p)[i] == st[i]);
            }
        }
    }
}

proof fn lemma_scan_invariant(w: Seq<char>)
    ensures
        ({
            let (st, c) = scan_from(Seq::empty(), Seq::empty(), w);
            &&& forall|i: int| 0 <= i < st.len() ==> plain_segment(#[trigger] st[i])
            &&& forall|i: int| 0 <= i < c.len() ==> !is_separator(#[trigger] c[i])
        }),
    decreases w.len(),
{
    if w.len() > 0 {
        lemma_scan_invariant(w.drop_last());
        let (st, c) = scan_from(Seq::empty(), Seq::empty(), w.drop_last());
        if is_separator(w.last()) {
            let ns = close_segment(st, c);
            assert forall|i: int| 0 <= i < ns.len() implies plain_segment(#[trigger] ns[i]) by {
                if i < st.len() {
                    assert(ns[i] == st[i]);
                }
            }
        } else {
            let nc = c.push(w.last());
            assert forall|i: int| 0 <= i < nc.len() implies !is_separator(#[trigger] nc[i]) by {
                if i < c.len() {
                    assert(nc[i] == c[i]);
                }
            }
        }
    }
}

/// Normalising a path that is already normal gives it back unchanged.
pub proof fn lemma_normalize_idempotent(p: Seq<char>)
    ensures
        normalize(normalize(p)) == normalize(p),
{
    let segs = segments(p);
    lemma_segments_plain(p);
    let q = normalize(p);
    if segs.len() == 0 {
        assert(join(segs) =~= Seq::<char>::empty());
        if rooted(p) {
            assert(q =~= seq!['/']);
            lemma_scan_slash(Seq::empty(), Seq::empty());
            assert(segments(q) =~= Seq::<Seq<char>>::empty());
        } else {
            assert(q =~= Seq::<char>::empty());
        }
    } else {
        lemma_scan_join(segs);
        assert(segs.drop_last().push(segs.last()) =~= segs);
        assert(plain_segment(segs[segs.len() - 1]));
        assert(plain_segment(segs[0]));
        assert(segments(join(segs)) == segs);
        if rooted(p) {
            lemma_scan_concat(Seq::empty(), Seq::empty(), seq!['/'], join(segs));
            lemma_scan_slash(Seq::empty(), Seq::empty());
            assert(q == seq!['/'] + join(segs));
            assert(q[0] == '/');
            assert(segments(q) == segs);
        } else {
            assert(q =~= join(segs));
            assert(!is_separator(segs[0][0]));
        }
    }
}

/// A `..` with no segment before it to cancel is dropped.
pub proof fn lemma_leading_parent_dropped(p: Seq<char>)
    ensures
        segments(seq!['.', '.', '/'] + p) == segments(p),
        segments(seq!['/', '.', '.', '/'] + p) == segments(p),
        !rooted(p) ==> normalize(seq!['.', '.', '/'] + p) == normalize(p),
        rooted(seq!['/', '.', '.', '/'] + p) && normalize(seq!['/', '.', '.', '/'] + p) == seq!['/'] + join(segments(p)),
{
    let e = Seq::<Seq<char>>::empty();
    let z = Seq::<char>::empty();
    let up = seq!['.', '.', '/'];
    let rup = seq!['/', '.', '.', '/'];
    let u1 = seq!['.'];
    let u2 = seq!['.', '.'];
    assert(u1.drop_last() =~= z);
    assert(z.push('.') =~= u1);
    assert(scan_from(e, z, u1.drop_last()) == (e, z));
    assert(u1.last() == '.');
    assert(scan_from(e, z, u1) == (e, u1));
    assert(u2.drop_last() =~= u1);
    assert(u1.push('.') =~= u2);
    assert(u2.last() == '.');
    assert(scan_from(e, z, u2) == (e, u2));
    assert(up.last() == '/');
    assert(up.drop_last() =~= u2);
    assert(scan_from(e, z, up) == (e, z));
    lemma_scan_concat(e, z, up, p);
    assert(rup =~= seq!['/'] + up);
    lemma_scan_concat(e, z, seq!['/'], up);
    lemma_scan_slash(e, z);
    lemma_scan_concat(e, z, rup, p);
    assert(rup + p =~= seq!['/'] + (up + p));
    assert((up + p)[0] == '.');
    assert((rup + p)[0] == '/');
    if !rooted(p) {
        assert(!rooted(up + p));
    }
}

/// Normalises `path`: `.` segments are removed, each `..` removes the segment
/// before it (or is dropped when there is none), and the kept segments are
/// joined with `/`, after a leading `/` when the path is rooted.
pub fn normalize_path(path: &str) -> (r: String)
    ensures
        r@ == normalize(path@),
{
    let cs = chars_of(path);
    let out = normalize_chars(&cs);
    string_of(out.as_slice())
}

fn close_exec(stack: &mut Vec<Vec<char>>, seg: Vec<char>)
    ensures
        final(stack)@.map_values(|v: Vec<char>| v@) == close_segment(old(stack)@.map_values(|v: Vec<char>| v@), seg@),
{
    let ghost before = stack@.map_values(|v: Vec<char>| v@);
    if seg.len() == 0 {
    } else if seg.len() == 1 && seg[0] == '.' {
        assert(seg@ =~= seq!['.']);
    } else if seg.len() == 2 && seg[0] == '.' && seg[1] == '.' {
        assert(seg@ =~= seq!['.', '.']);
        if stack.len() > 0 {
            stack.pop();
            assert(stack@.map_values(|v: Vec<char>| v@) =~= before.drop_last());
        }
    } else {
        assert(seg@ != seq!['.']);
        assert(seg@ != seq!['.', '.']);
        stack.push(seg);
        assert(stack@.map_values(|v: Vec<char>| v@) =~= before.push(seg@));
    }
}

fn join_exec(segs: &Vec<Vec<char>>, out: &mut Vec<char>)
    ensures
        final(out)@ == old(out)@ + join(segs@.map_values(|v: Vec<char>| v@)),
{
    let ghost m = segs@.map_values(|v: Vec<char>| v@);
    let mut i: usize = 0;
    while i < segs.len()
        invariant
            i <= segs@.len(),
            m == segs@.map_values(|v: Vec<char>| v@),
            out@ == old(out)@ + join(m.subrange(0, i as int)),
        decreases segs@.len() - i,
    {
        let ghost before = out@;
        if i > 0 {
            out.push('/');
        }
        let seg = &segs[i];
        let mut k: usize = 0;
        let ghost mid = out@;
        while k < seg.len()
            invariant
                k <= seg@.len(),
                out@ == mid + seg@.subrange(0, k as int),
            decreases seg@.len() - k,
        {
            out.push(seg[k]);
            assert(out@ =~= mid + seg@.subrange(0, k + 1));
            k = k + 1;
        }
        assert(seg@.subrange(0, seg@.len() as int) =~= seg@);
        let ghost pre = m.subrange(0, i + 1);
        assert(pre.drop_last() =~= m.subrange(0, i as int));
        assert(pre.last() == seg@);
        if i == 0 {
            assert(m.subrange(0, 0) =~= Seq::<Seq<char>>::empty());
            assert(old(out)@ + join(Seq::<Seq<char>>::empty()) =~= old(out)@);
            assert(out@ =~= old(out)@ + join(pre));
        } else {
            assert(out@ =~= old(out)@ + join(pre));
        }
        i = i + 1;
    }
    assert(m.subrange(0, segs@.len() as int) =~= m);
}

/// The normal form of the path `p`, as characters.
pub fn normalize_chars(p: &Vec<char>) -> (r: Vec<char>)
    ensures
        r@ == normalize(p@),
{
    let mut stack: Vec<Vec<char>> = Vec::new();
    let mut cur: Vec<char> = Vec::new();
    let mut i: usize = 0;
    assert(stack@.map_values(|v: Vec<char>| v@) =~= Seq::<Seq<char>>::empty());
    while i < p.len()
        invariant
            i <= p@.len(),
            (stack@.map_values(|v: Vec<char>| v@), cur@) == scan_from(Seq::empty(), Seq::empty(), p@.subrange(0, i as int)),
        decreases p@.len() - i,
    {
        let c = p[i];
        let ghost pre = p@.subrange(0, i + 1);
        assert(pre.drop_last() =~= p@.subrange(0, i as int));
        if c == '/' || c == '\\' {
            close_exec(&mut stack, cur);
            cur = Vec::new();
        } else {
            cur.push(c);
        }
        i = i + 1;
    }
    assert(p@.subrange(0, p@.len() as int) =~= p@);
    close_exec(&mut stack, cur);
    let mut out: Vec<char> = Vec::new();
    let is_rooted = p.len() > 0 && (p[0] == '/' || p[0] == '\\');
    if is_rooted {
        out.push('/');
    }
    join_exec(&stack, &mut out);
    assert(out@ =~= normalize(p@));
    out
}

/// Resolves `href`, written in the document at `doc_path`, to a normalised
/// archive path: relative to the document's directory unless it is rooted.
pub fn resolve_relative_path(doc_path: &str, href: &str) -> (r: String)
    ensures
        r@ == resolve(doc_path@, href@),
{
    let d = chars_of(doc_path);
    let h = chars_of(href);
    let mut full: Vec<char> = Vec::new();
    let href_rooted = h.len() > 0 && (h[0] == '/' || h[0] == '\\');
    if !href_rooted {
        let mut end: usize = d.len();
        assert(d@.subrange(0, d@.len() as int) =~= d@);
        while end > 0 && !(d[end - 1] == '/' || d[end - 1] == '\\')
            invariant
                end <= d@.len(),
                dir_end(d@) == dir_end(d@.subrange(0, end as int)),
            decreases end,
        {
            assert(d@.subrange(0, end as int).drop_last() =~= d@.subrange(0, end - 1));
            end = end - 1;
        }
        let mut k: usize = 0;
        while k < end
            invariant
                k <= end <= d@.len(),
                full@ == d@.subrange(0, k as int),
            decreases end - k,
        {
            full.push(d[k]);
            assert(full@ =~= d@.subrange(0, k + 1));
            k = k + 1;
        }
        assert(end == dir_end(d@));
    }
    let ghost base = full@;
    let mut k: usize = 0;
    while k < h.len()
        invariant
            k <= h@.len(),
            full@ == base + h@.subrange(0, k as int),
        decreases h@.len() - k,
    {
        full.push(h[k]);
        assert(full@ =~= base + h@.subrange(0, k + 1));
        k = k + 1;
    }
    assert(h@.subrange(0, h@.len() as int) =~= h@);
    if href_rooted {
        assert(full@ =~= h@);
    }
    let out = normalize_chars(&full);
    string_of(out.as_slice())
}

/// The value of the hexadecimal digit `byte`, in either case.
pub fn hex_value(byte: u8) -> (r: Option<u8>)
    ensures
        r == hex_digit(byte),
{
    if 0x30 <= byte && byte <= 0x39 {
        Some(byte - 0x30)
    } else if 0x61 <= byte && byte <= 0x66 {
        Some(byte - 0x61 + 10)
    } else if 0x41 <= byte && byte <= 0x46 {
        Some(byte - 0x41 + 10)
    } else {
        None
    }
}

/// Decodes `%XX` escapes in the bytes `b`.
pub fn percent_decode_bytes(b: &[u8]) -> (r: Vec<u8>)
    ensures
        r@ == percent_decode(b@),
{
    let n = b.len();
    let mut out: Vec<u8> = Vec::new();
    let mut i: usize = 0;
    assert(b@.subrange(0, n as int) =~= b@);
    while i < n
        invariant
            n == b@.len(),
            i <= n,
            out@ + percent_decode(b@.subrange(i as int, n as int)) == percent_decode(b@),
        decreases n - i,
    {
        let ghost rest = b@.subrange(i as int, n as int);
        if b[i] == 0x25 && n - i >= 3 {
            let hi = hex_value(b[i + 1]);
            let lo = hex_value(b[i + 2]);
            if hi.is_some() && lo.is_some() {
                let h = hi.unwrap();
                let l = lo.unwrap();
                assert(rest.subrange(3, rest.len() as int) =~= b@.subrange(i + 3, n as int));
                let ghost tail = percent_decode(b@.subrange(i + 3, n as int));
                assert(percent_decode(rest) == seq![(h * 16 + l) as u8] + tail);
                out.push(h * 16 + l);
                assert(out@ + tail =~= percent_decode(b@));
                i = i + 3;
                continue;
            }
        }
        assert(rest.drop_first() =~= b@.subrange(i + 1, n as int));
        let ghost tail = percent_decode(b@.subrange(i + 1, n as int));
        assert(percent_decode(rest) == seq![b[i as int]] + tail);
        out.push(b[i]);
        assert(out@ + tail =~= percent_decode(b@));
        i = i + 1;
    }
    assert(b@.subrange(n as int, n as int) =~= Seq::<u8>::empty());
    assert(out@ + Seq::<u8>::empty() =~= out@);
    out
}

/// Decodes `%XX` escapes in `path`'s UTF-8 bytes and reads the result back
/// as UTF-8, replacing invalid sequences.
pub fn percent_decode_path(path: &str) -> (r: String)
    ensures
        r@ == utf8_lossy(percent_decode(crate::text::encode_utf8_of(path@))),
        vstd::utf8::valid_utf8(percent_decode(crate::text::encode_utf8_of(path@)))
            ==> r@ == vstd::utf8::decode_utf8(percent_decode(crate::text::encode_utf8_of(path@))),
{
    let bytes = path.as_bytes();
    let out = percent_decode_bytes(bytes);
    from_utf8_lossy(out.as_slice())
}

} // verus!

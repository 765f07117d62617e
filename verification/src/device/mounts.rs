//! The mount table: which block devices are mounted where, as read from the
//! text of `/proc/mounts`.
//!
//! The text is split into lines at `\n` bytes (a `\n` byte in UTF-8 is always
//! the character `\n`); each line is then split into whitespace-separated
//! fields. A line whose first field is `/dev/<name>` gives the entry
//! (`<name>`, decoded mount path of the second field).
use vstd::prelude::*;
use vstd::string::StringSliceAdditionalSpecFns;
use vstd::utf8::{
    decode_utf8, encode_utf8, is_char_boundary, length_of_first_scalar, pop_first_scalar,
    valid_utf8,
};

use crate::device::sysfs::{spec_unescape_mount, unescape_mount};
use crate::split::{
    fields_by, is_nonempty, lemma_split_by_concat, lemma_split_by_no_sep, lemma_split_by_push,
    split_by,
};
use crate::text::{is_unicode_whitespace, is_whitespace};

verus! {

/// `\n`
pub const NEWLINE: u8 = 0x0A;

/// The line separator, as a byte.
pub open spec fn is_newline_byte() -> spec_fn(u8) -> bool {
    |b: u8| b == NEWLINE
}

/// The field separator: a Unicode whitespace character.
pub open spec fn is_whitespace_char() -> spec_fn(char) -> bool {
    |c: char| is_unicode_whitespace(c)
}

/// `/dev/`
pub open spec fn dev_prefix() -> Seq<char> {
    seq!['/', 'd', 'e', 'v', '/']
}

/// The entry a mount-table line gives: the device name after `/dev/` and the
/// decoded mount path, when the line has at least two fields and the first
/// one names a block device.
pub open spec fn spec_mount_entry(line: Seq<char>) -> Option<(Seq<char>, Seq<u8>)> {
    let f = fields_by(line, is_whitespace_char());
    if f.len() >= 2 && f[0].len() >= 5 && f[0].take(5) == dev_prefix() {
        Some((f[0].skip(5), spec_unescape_mount(encode_utf8(f[1]))))
    } else {
        None
    }
}

/// The entry of a line given as UTF-8 bytes.
pub open spec fn line_entry() -> spec_fn(Seq<u8>) -> Option<(Seq<char>, Seq<u8>)> {
    |line: Seq<u8>| spec_mount_entry(decode_utf8(line))
}

/// The entries of a mount table given as UTF-8 bytes, in order.
pub open spec fn spec_parse_mounts(content: Seq<u8>) -> Seq<(Seq<char>, Seq<u8>)> {
    split_by(content, is_newline_byte()).filter_map(line_entry())
}

/// The views of parsed mount entries.
pub open spec fn mounts_view(m: Seq<(String, Vec<u8>)>) -> Seq<(Seq<char>, Seq<u8>)> {
    m.map_values(|e: (String, Vec<u8>)| (e.0@, e.1@))
}

/// The character ranges `[start, end)` of the whitespace-separated fields of
/// `s`, in order.
pub fn field_ranges(s: &str) -> (r: Vec<(usize, usize)>)
    ensures
        r@.len() == fields_by(s@, is_whitespace_char()).len(),
        forall|k: int|
            0 <= k < r@.len() ==> #[trigger] r@[k].0 <= r@[k].1 <= s@.len() && s@.subrange(
                r@[k].0 as int,
                r@[k].1 as int,
            ) == fields_by(s@, is_whitespace_char())[k],
{
    let n = s.unicode_len();
    let mut out: Vec<(usize, usize)> = Vec::new();
    let mut start: usize = 0;
    let mut i: usize = 0;
    let ghost mut done: Seq<Seq<char>> = Seq::empty();
    assert(s@.take(0) =~= Seq::<char>::empty());
    assert(s@.subrange(0, 0) =~= Seq::<char>::empty());
    assert(done.filter(is_nonempty()) =~= Seq::<Seq<char>>::empty()) by {
        reveal(Seq::filter);
    }
    while i < n
        invariant
            start <= i <= n,
            n == s@.len(),
            split_by(s@.take(i as int), is_whitespace_char()) == done.push(
                s@.subrange(start as int, i as int),
            ),
            out@.len() == done.filter(is_nonempty()).len(),
            forall|k: int|
                0 <= k < out@.len() ==> #[trigger] out@[k].0 <= out@[k].1 <= i && s@.subrange(
                    out@[k].0 as int,
                    out@[k].1 as int,
                ) == done.filter(is_nonempty())[k],
        decreases n - i,
    {
        let c = s.get_char(i);
        let ghost cur = s@.subrange(start as int, i as int);
        proof {
            lemma_split_by_push(s@.take(i as int), is_whitespace_char(), done, cur, c);
            assert(s@.take(i as int).push(c) =~= s@.take(i + 1));
            done.lemma_filter_push(cur, is_nonempty());
        }
        if is_whitespace(c) {
            if start < i {
                out.push((start, i));
            }
            proof {
                done = done.push(cur);
            }
            start = i + 1;
            assert(s@.subrange(start as int, i + 1) =~= Seq::<char>::empty());
        } else {
            assert(s@.subrange(start as int, i + 1) =~= cur.push(c));
        }
        i += 1;
    }
    assert(s@.take(n as int) =~= s@);
    let ghost last = s@.subrange(start as int, n as int);
    proof {
        done.lemma_filter_push(last, is_nonempty());
    }
    if start < n {
        out.push((start, n));
    }
    out
}

/// The entry a mount-table line gives, if any.
pub fn parse_mount_line(line: &str) -> (r: Option<(String, Vec<u8>)>)
    ensures
        r matches Some(e) ==> spec_mount_entry(line@) == Some((e.0@, e.1@)),
        r is None ==> spec_mount_entry(line@) is None,
{
    let f = field_ranges(line);
    if f.len() < 2 {
        return None;
    }
    let (a0, b0) = f[0];
    let (a1, b1) = f[1];
    let ghost fields = fields_by(line@, is_whitespace_char());
    assert(line@.subrange(a0 as int, b0 as int) == fields[0]);
    if b0 - a0 < 5 {
        return None;
    }
    let is_dev = line.get_char(a0) == '/' && line.get_char(a0 + 1) == 'd' && line.get_char(a0 + 2)
        == 'e' && line.get_char(a0 + 3) == 'v' && line.get_char(a0 + 4) == '/';
    proof {
        let f0 = fields[0];
        if is_dev {
            assert(f0.take(5) =~= dev_prefix());
        } else {
            if f0.take(5) == dev_prefix() {
                assert(f0.take(5)[0] == '/');
                assert(f0.take(5)[1] == 'd');
                assert(f0.take(5)[2] == 'e');
                assert(f0.take(5)[3] == 'v');
                assert(f0.take(5)[4] == '/');
            }
        }
    }
    if !is_dev {
        return None;
    }
    let name = line.substring_char(a0 + 5, b0);
    assert(name@ =~= fields[0].skip(5));
    let mount = line.substring_char(a1, b1);
    Some((String::from_str(name), unescape_mount(mount)))
}

/// Every ASCII byte of valid UTF-8 starts a character.
proof fn lemma_ascii_byte_is_char_boundary(bytes: Seq<u8>, k: int)
    requires
        valid_utf8(bytes),
        0 <= k < bytes.len(),
        bytes[k] < 0x80,
    ensures
        is_char_boundary(bytes, k),
    decreases bytes.len(),
{
    if k > 0 {
        let l = length_of_first_scalar(bytes);
        assert(l >= 1);
        assert(k >= l);
        let rest = pop_first_scalar(bytes);
        assert(rest[k - l] == bytes[k]);
        lemma_ascii_byte_is_char_boundary(rest, k - l);
    }
}

/// The byte after a leading ASCII byte starts a character.
proof fn lemma_boundary_after_ascii(bytes: Seq<u8>)
    requires
        valid_utf8(bytes),
        bytes.len() > 0,
        bytes[0] < 0x80,
    ensures
        is_char_boundary(bytes, 1),
{
    assert(length_of_first_scalar(bytes) == 1);
    assert(valid_utf8(pop_first_scalar(bytes)));
    assert(is_char_boundary(pop_first_scalar(bytes), 0));
}

proof fn lemma_filter_map_concat<A, B>(x: Seq<A>, y: Seq<A>, f: spec_fn(A) -> Option<B>)
    ensures
        (x + y).filter_map(f) == x.filter_map(f) + y.filter_map(f),
    decreases y.len(),
{
    if y.len() == 0 {
        assert(x + y =~= x);
        assert(x.filter_map(f) + y.filter_map(f) =~= x.filter_map(f));
    } else {
        lemma_filter_map_concat(x, y.drop_last(), f);
        assert((x + y).drop_last() =~= x + y.drop_last());
        assert((x + y).last() == y.last());
        match f(y.last()) {
            Some(v) => {
                assert(x.filter_map(f) + y.drop_last().filter_map(f) + seq![v] =~= x.filter_map(f)
                    + (y.drop_last().filter_map(f) + seq![v]));
            },
            None => {},
        }
    }
}

/// A mount table split at a line break parses as its two halves: the entries
/// of the text before the `\n`, then those of the text after it.
pub proof fn lemma_parse_mounts_concat(a: Seq<u8>, b: Seq<u8>)
    ensures
        spec_parse_mounts(a + seq![NEWLINE] + b) == spec_parse_mounts(a) + spec_parse_mounts(b),
{
    lemma_split_by_concat(a, NEWLINE, b, is_newline_byte());
    lemma_filter_map_concat(split_by(a, is_newline_byte()), split_by(b, is_newline_byte()), line_entry());
}

/// A line without a line break gives at most one entry: the entry of that line.
pub proof fn lemma_parse_mounts_single_line(a: Seq<u8>)
    requires
        forall|i: int| 0 <= i < a.len() ==> #[trigger] a[i] != NEWLINE,
    ensures
        spec_parse_mounts(a) == (match spec_mount_entry(decode_utf8(a)) {
            Some(e) => seq![e],
            None => Seq::empty(),
        }),
{
    lemma_split_by_no_sep(a, is_newline_byte());
    Seq::lemma_filter_map_singleton(a, line_entry());
}

/// The entries of a mount table (the text of `/proc/mounts`), in order: one
/// per line whose first field is `/dev/<name>`, with the octal escapes of the
/// mount path decoded.
pub fn parse_mounts(content: &str) -> (r: Vec<(String, Vec<u8>)>)
    ensures
        mounts_view(r@) == spec_parse_mounts(content.spec_bytes()),
{
    let ghost all = content.spec_bytes();
    let mut out: Vec<(String, Vec<u8>)> = Vec::new();
    let mut rest: &str = content;
    let ghost mut consumed: int = 0;
    let ghost mut lines_done: Seq<Seq<u8>> = Seq::empty();
    assert(all.skip(0) =~= all);
    assert(lines_done.filter_map(line_entry()) =~= Seq::<(Seq<char>, Seq<u8>)>::empty());
    loop
        invariant
            all == content.spec_bytes(),
            0 <= consumed <= all.len(),
            rest.spec_bytes() == all.skip(consumed),
            split_by(all, is_newline_byte()) == lines_done + split_by(
                all.skip(consumed),
                is_newline_byte(),
            ),
            mounts_view(out@) == lines_done.filter_map(line_entry()),
        decreases all.len() - consumed,
    {
        let bytes = rest.as_bytes();
        let mut k: usize = 0;
        while k < bytes.len() && bytes[k] != NEWLINE
            invariant
                k <= bytes@.len(),
                forall|j: int| 0 <= j < k ==> bytes@[j] != NEWLINE,
            decreases bytes@.len() - k,
        {
            k += 1;
        }
        let ghost rb = bytes@;
        if k == bytes.len() {
            // The last line (possibly empty).
            proof {
                lemma_split_by_no_sep(rb, is_newline_byte());
                vstd::utf8::encode_utf8_decode_utf8(rest@);
                assert(decode_utf8(rb) == rest@);
            }
            let ghost old_out = mounts_view(out@);
            match parse_mount_line(rest) {
                Some(e) => {
                    out.push(e);
                    assert(mounts_view(out@) =~= old_out + seq![(e.0@, e.1@)]);
                },
                None => {},
            }
            proof {
                let ld = lines_done.push(rb);
                assert(ld.drop_last() =~= lines_done);
                assert(split_by(all, is_newline_byte()) =~= ld);
                assert(mounts_view(out@) =~= ld.filter_map(line_entry()));
            }
            return out;
        }
        proof {
            vstd::utf8::encode_utf8_valid_utf8(rest@);
            assert(valid_utf8(rb));
            lemma_ascii_byte_is_char_boundary(rb, k as int);
        }
        let (line, tail) = rest.split_at(k);
        let ghost lb = rb.subrange(0, k as int);
        let ghost tb = rb.subrange(k + 1, rb.len() as int);
        proof {
            assert(line.spec_bytes() == lb);
            vstd::utf8::encode_utf8_decode_utf8(line@);
            assert(decode_utf8(lb) == line@);
            assert(tail.spec_bytes() =~= seq![NEWLINE] + tb);
            vstd::utf8::encode_utf8_valid_utf8(tail@);
            assert(valid_utf8(tail.spec_bytes()));
            lemma_boundary_after_ascii(tail.spec_bytes());
        }
        let (_nl, after) = tail.split_at(1);
        proof {
            assert(after.spec_bytes() =~= tb);
            assert(rb =~= lb + seq![NEWLINE] + tb);
            assert forall|j: int| 0 <= j < lb.len() implies !is_newline_byte()(#[trigger] lb[j]) by {}
            lemma_split_by_no_sep(lb, is_newline_byte());
            lemma_split_by_concat(lb, NEWLINE, tb, is_newline_byte());
        }
        let ghost old_out = mounts_view(out@);
        match parse_mount_line(line) {
            Some(e) => {
                out.push(e);
                assert(mounts_view(out@) =~= old_out + seq![(e.0@, e.1@)]);
            },
            None => {},
        }
        proof {
            let ld = lines_done.push(lb);
            assert(ld.drop_last() =~= lines_done);
            assert(mounts_view(out@) =~= ld.filter_map(line_entry()));
            assert(all.skip(consumed + k + 1) =~= tb);
            assert(split_by(all, is_newline_byte()) =~= ld + split_by(tb, is_newline_byte()));
            lines_done = ld;
            consumed = consumed + k + 1;
        }
        rest = after;
    }
}

} // verus!

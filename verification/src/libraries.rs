//! The SVR4 library list that GDB asks for (`qXfer:libraries-svr4:read`):
//! an XML document naming each shared library mapped into the traced process,
//! served to GDB in windows of the size it asks for.
use vstd::prelude::*;
use vstd::string::StringSliceAdditionalSpecFns;

use crate::bytes::{append_bytes, bytes_equal, contains, ends_with, has_infix, has_suffix};
use crate::maps::{path_of, MemoryRegion};

verus! {

/// A mapped file counts as a shared library when its path ends in `.so`,
/// holds `.so.` (a versioned library), or is the Android dynamic linker.
pub open spec fn is_library_path_spec(p: Seq<u8>) -> bool {
    ||| ends_with(p, ".so".spec_bytes())
    ||| contains(p, ".so.".spec_bytes())
    ||| ends_with(p, "/linker64".spec_bytes())
    ||| ends_with(p, "/linker".spec_bytes())
}

/// Whether some entry of `entries` names the library `path`.
pub open spec fn is_listed(entries: Seq<(Seq<u8>, u64)>, path: Seq<u8>) -> bool {
    exists|k: int| 0 <= k < entries.len() && entries[k].0 == path
}

/// The libraries of the map, in the order of their first mapping: each library
/// path once, with the start address of its first mapping.
pub open spec fn library_entries(regions: Seq<MemoryRegion>) -> Seq<(Seq<u8>, u64)>
    decreases regions.len(),
{
    if regions.len() == 0 {
        Seq::empty()
    } else {
        let earlier = library_entries(regions.drop_last());
        let r = regions.last();
        match path_of(r) {
            Some(p) => if is_library_path_spec(p) && !is_listed(earlier, p) {
                earlier.push((p, r.start))
            } else {
                earlier
            },
            None => earlier,
        }
    }
}

/// The value of a hexadecimal digit, as its lower-case ASCII character.
pub open spec fn hex_digit(d: nat) -> u8 {
    if d < 10 {
        (48 + d) as u8
    } else {
        (87 + d) as u8
    }
}

/// The hexadecimal digits of `n`, most significant first, without leading zeros.
pub open spec fn hex_digits(n: nat) -> Seq<u8>
    decreases n,
{
    if n < 16 {
        seq![hex_digit(n)]
    } else {
        hex_digits(n / 16).push(hex_digit(n % 16))
    }
}

/// `n` as Rust's `{:#x}` prints it: `0x` and the lower-case hexadecimal digits.
pub open spec fn hex_literal(n: u64) -> Seq<u8> {
    "0x".spec_bytes() + hex_digits(n as nat)
}

/// The XML element for one library mapped at `start`. The link-map and dynamic
/// section addresses are not known to the server and are given as zero.
pub open spec fn entry_xml(path: Seq<u8>, start: u64) -> Seq<u8> {
    "<library name=\"".spec_bytes() + path + "\" lm=\"0x0\" l_addr=\"".spec_bytes()
        + hex_literal(start) + "\" l_ld=\"0x0\" lmid=\"0\"/>".spec_bytes()
}

/// The elements of a list of libraries, one after another.
pub open spec fn entries_xml(entries: Seq<(Seq<u8>, u64)>) -> Seq<u8>
    decreases entries.len(),
{
    if entries.len() == 0 {
        Seq::empty()
    } else {
        entries_xml(entries.drop_last()) + entry_xml(entries.last().0, entries.last().1)
    }
}

/// The whole library-list document for a memory map.
pub open spec fn library_list_spec(regions: Seq<MemoryRegion>) -> Seq<u8> {
    "<library-list-svr4 version=\"1.0\">".spec_bytes() + entries_xml(library_entries(regions))
        + "</library-list-svr4>".spec_bytes()
}

/// How many bytes a read of `want` bytes at `offset` gets from a document of `total` bytes.
pub open spec fn window_len(total: int, offset: int, want: int) -> int {
    if offset >= total {
        0
    } else if total - offset < want {
        total - offset
    } else {
        want
    }
}

/// The bytes that a read of `want` bytes at `offset` gets from `doc`.
pub open spec fn window(doc: Seq<u8>, offset: int, want: int) -> Seq<u8> {
    if offset >= doc.len() {
        Seq::empty()
    } else {
        doc.subrange(offset, offset + window_len(doc.len() as int, offset, want))
    }
}

/// A 64-bit document offset as an index of the host (`offset as usize`, which keeps
/// the value on 64-bit hosts).
pub open spec fn index_of_offset(offset: u64) -> int {
    (#[verifier::truncate] (offset as usize)) as int
}

/// The smaller of two sizes.
pub open spec fn min_len(a: int, b: int) -> int {
    if a < b {
        a
    } else {
        b
    }
}

/// Whether a mapped file is a shared library (see `is_library_path_spec`).
pub fn is_library_path(path: &[u8]) -> (r: bool)
    ensures
        r == is_library_path_spec(path@),
{
    has_suffix(path, ".so".as_bytes()) || has_infix(path, ".so.".as_bytes()) || has_suffix(
        path,
        "/linker64".as_bytes(),
    ) || has_suffix(path, "/linker".as_bytes())
}

/// The ASCII character of a hexadecimal digit.
fn hex_digit_byte(d: u64) -> (r: u8)
    requires
        d < 16,
    ensures
        r == hex_digit(d as nat),
{
    if d < 10 {
        48 + d as u8
    } else {
        87 + d as u8
    }
}

/// Appends the hexadecimal digits of `n`.
fn push_hex_digits(out: &mut Vec<u8>, n: u64)
    ensures
        final(out)@ == old(out)@ + hex_digits(n as nat),
    decreases n,
{
    if n >= 16 {
        push_hex_digits(out, n / 16);
    }
    out.push(hex_digit_byte(n % 16));
    assert(final(out)@ =~= old(out)@ + hex_digits(n as nat));
}

/// Appends the XML element of one library.
fn push_entry(out: &mut Vec<u8>, path: &[u8], start: u64)
    ensures
        final(out)@ == old(out)@ + entry_xml(path@, start),
{
    append_bytes(out, "<library name=\"".as_bytes());
    append_bytes(out, path);
    append_bytes(out, "\" lm=\"0x0\" l_addr=\"".as_bytes());
    append_bytes(out, "0x".as_bytes());
    push_hex_digits(out, start);
    append_bytes(out, "\" l_ld=\"0x0\" lmid=\"0\"/>".as_bytes());
    assert(final(out)@ =~= old(out)@ + entry_xml(path@, start));
}

/// Whether `path` is one of the paths in `seen`.
fn is_seen(seen: &Vec<Vec<u8>>, path: &[u8]) -> (r: bool)
    ensures
        r == exists|k: int| 0 <= k < seen@.len() && seen@[k]@ == path@,
{
    let n = seen.len();
    let mut k: usize = 0;
    while k < n
        invariant
            n == seen@.len(),
            k <= n,
            forall|j: int| 0 <= j < k ==> seen@[j]@ != path@,
        decreases n - k,
    {
        if bytes_equal(seen[k].as_slice(), path) {
            return true;
        }
        k = k + 1;
    }
    false
}

/// Builds the SVR4 library-list document for the memory map `regions`:
/// one `<library>` element for each shared library, in the order of its first
/// mapping, at the start address of that mapping.
pub fn library_list(regions: &[MemoryRegion]) -> (r: Vec<u8>)
    ensures
        r@ == library_list_spec(regions@),
{
    let mut xml: Vec<u8> = Vec::new();
    append_bytes(&mut xml, "<library-list-svr4 version=\"1.0\">".as_bytes());
    let mut seen: Vec<Vec<u8>> = Vec::new();
    let n = regions.len();
    let mut i: usize = 0;
    while i < n
        invariant
            n == regions@.len(),
            i <= n,
            xml@ == "<library-list-svr4 version=\"1.0\">".spec_bytes() + entries_xml(
                library_entries(regions@.take(i as int)),
            ),
            seen@.len() == library_entries(regions@.take(i as int)).len(),
            forall|k: int|
                0 <= k < seen@.len() ==> #[trigger] seen@[k]@ == library_entries(
                    regions@.take(i as int),
                )[k].0,
        decreases n - i,
    {
        let ghost before = library_entries(regions@.take(i as int));
        assert(regions@.take(i + 1).drop_last() =~= regions@.take(i as int));
        assert(regions@.take(i + 1).last() == regions@[i as int]);
        let region = &regions[i];
        match &region.path {
            Some(p) => {
                let listed = is_seen(&seen, p.as_slice());
                assert(listed == is_listed(before, p@)) by {
                    if listed {
                        let k = choose|k: int| 0 <= k < seen@.len() && seen@[k]@ == p@;
                        assert(before[k].0 == p@);
                    }
                    if is_listed(before, p@) {
                        let k = choose|k: int| 0 <= k < before.len() && before[k].0 == p@;
                        assert(seen@[k]@ == p@);
                    }
                }
                if !listed && is_library_path(p.as_slice()) {
                    let copy = vstd::slice::slice_to_vec(p.as_slice());
                    seen.push(copy);
                    push_entry(&mut xml, p.as_slice(), region.start);
                    proof {
                        let after = before.push((p@, region.start));
                        assert(after.drop_last() =~= before);
                        assert(xml@ =~= "<library-list-svr4 version=\"1.0\">".spec_bytes()
                            + entries_xml(after));
                    }
                }
            },
            None => {},
        }
        i = i + 1;
    }
    assert(regions@.take(n as int) =~= regions@);
    append_bytes(&mut xml, "</library-list-svr4>".as_bytes());
    xml
}

/// Copies the part of `doc` that a read of `length` bytes at `offset` gets into
/// the front of `buf`, no more than `buf` holds, and returns how many bytes that is;
/// a read at or past the end gets nothing.
pub fn read_window(doc: &[u8], offset: u64, length: usize, buf: &mut [u8]) -> (r: usize)
    ensures
        r == window_len(
            doc@.len() as int,
            index_of_offset(offset),
            min_len(length as int, old(buf)@.len() as int),
        ),
        final(buf)@.len() == old(buf)@.len(),
        final(buf)@.subrange(0, r as int) == window(
            doc@,
            index_of_offset(offset),
            min_len(length as int, old(buf)@.len() as int),
        ),
        final(buf)@.subrange(r as int, final(buf)@.len() as int) == old(buf)@.subrange(
            r as int,
            old(buf)@.len() as int,
        ),
{
    let offset = #[verifier::truncate] (offset as usize);
    let total = doc.len();
    if offset >= total {
        assert(buf@.subrange(0, 0) =~= window(
            doc@,
            offset as int,
            min_len(length as int, old(buf)@.len() as int),
        ));
        assert(buf@.subrange(0, buf@.len() as int) =~= old(buf)@.subrange(
            0,
            old(buf)@.len() as int,
        ));
        return 0;
    }
    let available = total - offset;
    let want = if length < buf.len() {
        length
    } else {
        buf.len()
    };
    let count = if available < want {
        available
    } else {
        want
    };
    let mut j: usize = 0;
    while j < count
        invariant
            count <= available,
            available == doc@.len() - offset,
            offset + available == total,
            total == doc@.len(),
            count <= buf@.len(),
            buf@.len() == old(buf)@.len(),
            j <= count,
            forall|k: int| 0 <= k < j ==> buf@[k] == doc@[offset + k],
            forall|k: int| count <= k < buf@.len() ==> buf@[k] == old(buf)@[k],
        decreases count - j,
    {
        buf[j] = doc[offset + j];
        j = j + 1;
    }
    assert(buf@.subrange(0, count as int) =~= doc@.subrange(offset as int, offset + count));
    assert(buf@.subrange(count as int, buf@.len() as int) =~= old(buf)@.subrange(
        count as int,
        old(buf)@.len() as int,
    ));
    count
}

/// Answers GDB's request for `length` bytes of the library list at `offset`:
/// builds the list for the memory map `regions`, copies the requested window
/// into `buf` and returns its length.
pub fn get_libraries_svr4(regions: &[MemoryRegion], offset: u64, length: usize, buf: &mut [u8]) -> (r: usize)
    ensures
        r == window_len(
            library_list_spec(regions@).len() as int,
            index_of_offset(offset),
            min_len(length as int, old(buf)@.len() as int),
        ),
        final(buf)@.len() == old(buf)@.len(),
        final(buf)@.subrange(0, r as int) == window(
            library_list_spec(regions@),
            index_of_offset(offset),
            min_len(length as int, old(buf)@.len() as int),
        ),
        final(buf)@.subrange(r as int, final(buf)@.len() as int) == old(buf)@.subrange(
            r as int,
            old(buf)@.len() as int,
        ),
{
    let xml = library_list(regions);
    read_window(xml.as_slice(), offset, length, buf)
}

/// Each library appears in the list once.
pub proof fn lemma_library_entries_distinct(regions: Seq<MemoryRegion>)
    ensures
        forall|i: int, j: int|
            0 <= i < j < library_entries(regions).len() ==> library_entries(regions)[i].0
                != library_entries(regions)[j].0,
    decreases regions.len(),
{
    if regions.len() > 0 {
        let earlier = library_entries(regions.drop_last());
        let entries = library_entries(regions);
        lemma_library_entries_distinct(regions.drop_last());
        assert forall|i: int, j: int| 0 <= i < j < entries.len() implies entries[i].0
            != entries[j].0 by {
            assert(entries[i] == earlier[i]);
            if j < earlier.len() {
                assert(entries[j] == earlier[j]);
            }
        }
    }
}

/// Every shared library of the map is in the list.
pub proof fn lemma_library_entries_complete(regions: Seq<MemoryRegion>)
    ensures
        forall|i: int|
            0 <= i < regions.len() && path_of(#[trigger] regions[i]) is Some
                && is_library_path_spec(path_of(regions[i])->0) ==> is_listed(
                library_entries(regions),
                path_of(regions[i])->0,
            ),
    decreases regions.len(),
{
    if regions.len() > 0 {
        let earlier = library_entries(regions.drop_last());
        lemma_library_entries_complete(regions.drop_last());
        assert forall|i: int|
            0 <= i < regions.len() && path_of(#[trigger] regions[i]) is Some
                && is_library_path_spec(path_of(regions[i])->0) implies is_listed(
            library_entries(regions),
            path_of(regions[i])->0,
        ) by {
            let p = path_of(regions[i])->0;
            let entries = library_entries(regions);
            if i < regions.len() - 1 {
                assert(regions.drop_last()[i] == regions[i]);
                let k = choose|k: int| 0 <= k < earlier.len() && earlier[k].0 == p;
                assert(entries[k] == earlier[k]);
            } else if is_listed(earlier, p) {
                let k = choose|k: int| 0 <= k < earlier.len() && earlier[k].0 == p;
                assert(entries[k] == earlier[k]);
            } else {
                assert(entries[earlier.len() as int].0 == p);
            }
        }
    }
}

/// Only shared libraries of the map are in the list, each at the start address
/// of its first mapping.
pub proof fn lemma_library_entries_sound(regions: Seq<MemoryRegion>)
    ensures
        forall|k: int|
            0 <= k < library_entries(regions).len() ==> {
                let e = #[trigger] library_entries(regions)[k];
                &&& is_library_path_spec(e.0)
                &&& exists|i: int|
                    0 <= i < regions.len() && path_of(#[trigger] regions[i]) == Some(e.0)
                        && regions[i].start == e.1 && forall|j: int|
                        0 <= j < i ==> path_of(#[trigger] regions[j]) != Some(e.0)
            },
    decreases regions.len(),
{
    if regions.len() > 0 {
        let rest = regions.drop_last();
        let earlier = library_entries(rest);
        let entries = library_entries(regions);
        lemma_library_entries_sound(rest);
        lemma_library_entries_complete(rest);
        assert forall|k: int| 0 <= k < entries.len() implies {
            let e = #[trigger] entries[k];
            &&& is_library_path_spec(e.0)
            &&& exists|i: int|
                0 <= i < regions.len() && path_of(#[trigger] regions[i]) == Some(e.0)
                    && regions[i].start == e.1 && forall|j: int|
                    0 <= j < i ==> path_of(#[trigger] regions[j]) != Some(e.0)
        } by {
            let e = entries[k];
            if k < earlier.len() {
                assert(entries[k] == earlier[k]);
                let i = choose|i: int|
                    0 <= i < rest.len() && path_of(#[trigger] rest[i]) == Some(e.0)
                        && rest[i].start == e.1 && forall|j: int|
                        0 <= j < i ==> path_of(#[trigger] rest[j]) != Some(e.0);
                assert(regions[i] == rest[i]);
                assert forall|j: int| 0 <= j < i implies path_of(#[trigger] regions[j]) != Some(
                    e.0,
                ) by {
                    assert(regions[j] == rest[j]);
                }
            } else {
                let i = regions.len() - 1;
                assert forall|j: int| 0 <= j < i implies path_of(#[trigger] regions[j]) != Some(
                    e.0,
                ) by {
                    assert(regions[j] == rest[j]);
                    if path_of(regions[j]) == Some(e.0) {
                        assert(path_of(rest[j]) == Some(e.0));
                    }
                }
            }
        }
    }
}

/// Reading the document in two steps, the second starting where the first ended,
/// gets the same bytes as one read of both sizes together.
pub proof fn lemma_window_concat(doc: Seq<u8>, offset: int, first: int, second: int)
    requires
        0 <= offset,
        0 <= first,
        0 <= second,
    ensures
        window(doc, offset, first) + window(
            doc,
            offset + window_len(doc.len() as int, offset, first),
            second,
        ) == window(doc, offset, first + second),
{
    let n = window_len(doc.len() as int, offset, first);
    if offset < doc.len() {
        if offset + n < doc.len() {
            assert(doc.subrange(offset, offset + n) + doc.subrange(
                offset + n,
                offset + n + window_len(doc.len() as int, offset + n, second),
            ) =~= doc.subrange(offset, offset + window_len(doc.len() as int, offset, first + second)));
        } else {
            assert(doc.subrange(offset, offset + n) + Seq::<u8>::empty() =~= doc.subrange(
                offset,
                offset + window_len(doc.len() as int, offset, first + second),
            ));
        }
    } else {
        assert(Seq::<u8>::empty() + Seq::<u8>::empty() =~= Seq::<u8>::empty());
    }
}

/// A mapped path is a shared library exactly when it ends in `.so`, holds `.so.`
/// somewhere, or ends in `/linker64` or `/linker`.
pub proof fn lemma_library_path_rule(p: Seq<u8>)
    ensures
        ends_with(p, ".so".spec_bytes()) ==> is_library_path_spec(p),
        contains(p, ".so.".spec_bytes()) ==> is_library_path_spec(p),
        ends_with(p, "/linker64".spec_bytes()) ==> is_library_path_spec(p),
        ends_with(p, "/linker".spec_bytes()) ==> is_library_path_spec(p),
        is_library_path_spec(p) ==> ends_with(p, ".so".spec_bytes()) || contains(
            p,
            ".so.".spec_bytes(),
        ) || ends_with(p, "/linker64".spec_bytes()) || ends_with(p, "/linker".spec_bytes()),
{
}

/// The value of a lower-case hexadecimal digit character.
pub open spec fn hex_value(b: u8) -> int {
    if 48 <= b <= 57 {
        b - 48
    } else {
        b - 87
    }
}

/// A lower-case hexadecimal digit character: `0`-`9` or `a`-`f`.
pub open spec fn is_hex_char(b: u8) -> bool {
    (48 <= b <= 57) || (97 <= b <= 102)
}

/// The number that a string of hexadecimal digits spells, most significant first.
pub open spec fn parse_hex(s: Seq<u8>) -> int
    decreases s.len(),
{
    if s.len() == 0 {
        0
    } else {
        parse_hex(s.drop_last()) * 16 + hex_value(s.last())
    }
}

/// The address printed into a library element reads back as the address: it is
/// lower-case hexadecimal digits with no leading zero (but for zero itself),
/// spelling `n`.
pub proof fn lemma_hex_digits_spell(n: nat)
    ensures
        parse_hex(hex_digits(n)) == n,
        forall|i: int| 0 <= i < hex_digits(n).len() ==> is_hex_char(#[trigger] hex_digits(n)[i]),
        hex_digits(n).len() >= 1,
        n > 0 ==> hex_digits(n)[0] != 48,
    decreases n,
{
    let s = hex_digits(n);
    if n >= 16 {
        lemma_hex_digits_spell(n / 16);
        assert(s.drop_last() =~= hex_digits(n / 16));
        assert(s[0] == hex_digits(n / 16)[0]);
        vstd::arithmetic::div_mod::lemma_fundamental_div_mod(n as int, 16);
        assert(hex_value(hex_digit(n % 16)) == n % 16);
        assert(s.last() == hex_digit(n % 16));
        assert(parse_hex(s) == parse_hex(s.drop_last()) * 16 + hex_value(s.last()));
    } else {
        assert(s.drop_last() =~= Seq::<u8>::empty());
        assert(hex_value(hex_digit(n)) == n);
        assert(parse_hex(s) == parse_hex(s.drop_last()) * 16 + hex_value(s.last()));
    }
}

/// A read gets as many bytes as asked for, unless the document ends first: never
/// more than asked, never past the end, and nothing at or past the end.
pub proof fn lemma_window_len_bounds(total: int, offset: int, want: int)
    requires
        0 <= want,
        0 <= offset,
    ensures
        0 <= window_len(total, offset, want) <= want,
        offset >= total ==> window_len(total, offset, want) == 0,
        offset < total ==> offset + window_len(total, offset, want) <= total,
        offset < total ==> (window_len(total, offset, want) == want || offset + window_len(
            total,
            offset,
            want,
        ) == total),
{
}

} // verus!

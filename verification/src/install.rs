//! Installing and removing the audio driver: which device nodes are ours, what to do with those
//! that exist, how a node is removed for certain, and what is reported.
use crate::bytes;
use crate::text;
use vstd::prelude::*;
use vstd::string::*;

verus! {

/// The hardware identifier of the device node.
pub const HARDWARE_ID: &'static str = "Root\\vdev-audio";

/// The result code of a configuration-manager call that succeeded.
pub const CR_SUCCESS: u32 = 0;

/// The error of a call whose buffer is too small.
pub const INSUFFICIENT_BUFFER: u32 = 0x8007_007A;

/// What to do after a read into a buffer.
#[derive(Clone, Copy, Debug, PartialEq, Eq, Structural)]
pub enum ReadStep {
    /// The buffer holds the value.
    Done,
    /// Read again, with that many bytes or units.
    Grow(u32),
    /// There is no value to be had.
    GiveUp,
}

/// What to do with the nodes that exist.
#[derive(Clone, Copy, Debug, PartialEq, Eq, Structural)]
pub enum InstallPlan {
    /// There is none: create one.
    Create,
    /// There is one: keep it and renew its driver.
    Reuse,
    /// There are several: remove them all and create one.
    Recreate,
}

/// What is known of the device.
pub struct DeviceStatus {
    pub present: bool,
    pub driver: Option<String>,
    pub friendly_name: Option<String>,
}

// ---- hardware identifiers ----

/// An ASCII capital letter as the small one, any other unit as it is.
pub open spec fn lower_unit(c: u16) -> u16 {
    if 0x41 <= c <= 0x5A {
        (c + 0x20) as u16
    } else {
        c
    }
}

/// Two rows of units that differ at most in the case of ASCII letters.
pub open spec fn same_units(a: Seq<u16>, b: Seq<u16>) -> bool {
    a.len() == b.len() && forall|i: int|
        0 <= i < a.len() ==> lower_unit(#[trigger] a[i]) == lower_unit(b[i])
}

/// The units from `i` up to the zero at `j` are one entry of a list of zero-terminated texts.
pub open spec fn is_entry(list: Seq<u16>, i: int, j: int) -> bool {
    &&& 0 <= i <= j < list.len()
    &&& list[j] == 0
    &&& i == 0 || list[i - 1] == 0
    &&& forall|k: int| i <= k < j ==> list[k] != 0
}

/// Whether a list has an entry that is `id`, whatever the case of its ASCII letters.
pub open spec fn lists(list: Seq<u16>, id: Seq<u16>) -> bool {
    exists|i: int, j: int| #[trigger] is_entry(list, i, j) && same_units(list.subrange(i, j), id)
}

/// An ASCII capital letter as the small one.
pub fn ascii_lower_u16(c: u16) -> (r: u16)
    ensures
        r == lower_unit(c),
{
    if 0x41 <= c && c <= 0x5A {
        c + 0x20
    } else {
        c
    }
}

/// Whether the units of `list` from `from` to `to` are `id`, but for case.
fn entry_matches(list: &[u16], from: usize, to: usize, id: &Vec<u16>) -> (same: bool)
    requires
        from <= to <= list@.len(),
    ensures
        same == same_units(list@.subrange(from as int, to as int), id@),
{
    let ghost part = list@.subrange(from as int, to as int);
    if to - from != id.len() {
        return false;
    }
    let mut k: usize = 0;
    while k < id.len()
        invariant
            k <= id@.len(),
            id@.len() == to - from,
            from <= to <= list@.len(),
            part == list@.subrange(from as int, to as int),
            forall|m: int| 0 <= m < k ==> lower_unit(#[trigger] part[m]) == lower_unit(id@[m]),
        decreases id@.len() - k,
    {
        assert(part[k as int] == list@[from + k]);
        if ascii_lower_u16(list[from + k]) != ascii_lower_u16(id[k]) {
            return false;
        }
        k = k + 1;
    }
    true
}

/// Whether a list of hardware identifiers has `needle` as one of its entries: the whole entry,
/// not a part of it, whatever its case.
pub fn hwid_matches(haystack: &[u16], needle: &str) -> (yes: bool)
    ensures
        yes == lists(haystack@, text::utf16(needle@)),
{
    let id: Vec<u16> = text::encode_utf16(needle);
    let mut start: usize = 0;
    let mut i: usize = 0;
    while i < haystack.len()
        invariant
            start <= i <= haystack@.len(),
            id@ == text::utf16(needle@),
            start == 0 || haystack@[start - 1] == 0,
            forall|k: int| start <= k < i ==> haystack@[k] != 0,
            forall|a: int, b: int|
                #[trigger] is_entry(haystack@, a, b) && b < i ==> !same_units(
                    haystack@.subrange(a, b),
                    id@,
                ),
        decreases haystack@.len() - i,
    {
        if haystack[i] == 0 {
            if entry_matches(haystack, start, i, &id) {
                assert(is_entry(haystack@, start as int, i as int));
                return true;
            }
            assert forall|a: int, b: int| #[trigger]
                is_entry(haystack@, a, b) && b < i + 1 implies !same_units(
                haystack@.subrange(a, b),
                id@,
            ) by {
                if b == i {
                    if a < start {
                        assert(haystack@[start - 1] == 0);
                    }
                    if a > start {
                        assert(haystack@[a - 1] != 0);
                    }
                    assert(a == start);
                }
            }
            start = i + 1;
        }
        i = i + 1;
    }
    false
}

/// Whether a list of hardware identifiers is that of the audio device.
pub fn is_vdev_node(hwids: &[u16]) -> (yes: bool)
    ensures
        yes == lists(hwids@, text::utf16(HARDWARE_ID@)),
{
    hwid_matches(hwids, HARDWARE_ID)
}

/// The numbers of the nodes that are ours, in order.
pub open spec fn ours(all: Seq<Vec<u16>>, n: int) -> Seq<usize>
    decreases n,
{
    if n <= 0 {
        Seq::empty()
    } else if lists(all[n - 1]@, text::utf16(HARDWARE_ID@)) {
        ours(all, n - 1).push((n - 1) as usize)
    } else {
        ours(all, n - 1)
    }
}

/// The numbers of the nodes whose hardware identifiers are ours.
pub fn collect_vdev_nodes(all: &Vec<Vec<u16>>) -> (out: Vec<usize>)
    ensures
        out@ == ours(all@, all@.len() as int),
{
    let mut out: Vec<usize> = Vec::new();
    let mut i: usize = 0;
    while i < all.len()
        invariant
            i <= all@.len(),
            out@ == ours(all@, i as int),
        decreases all@.len() - i,
    {
        if is_vdev_node(all[i].as_slice()) {
            out.push(i);
        }
        i = i + 1;
    }
    out
}

/// The first node that is ours.
pub fn find_device(all: &Vec<Vec<u16>>) -> (r: Option<usize>)
    ensures
        r is Some ==> r->0 < all@.len() && lists(
            all@[r->0 as int]@,
            text::utf16(HARDWARE_ID@),
        ) && forall|k: int|
            0 <= k < r->0 ==> !lists((#[trigger] all@[k])@, text::utf16(HARDWARE_ID@)),
        r is None ==> forall|k: int|
            0 <= k < all@.len() ==> !lists((#[trigger] all@[k])@, text::utf16(HARDWARE_ID@)),
{
    let mut i: usize = 0;
    while i < all.len()
        invariant
            i <= all@.len(),
            forall|k: int|
                0 <= k < i ==> !lists((#[trigger] all@[k])@, text::utf16(HARDWARE_ID@)),
        decreases all@.len() - i,
    {
        if is_vdev_node(all[i].as_slice()) {
            return Some(i);
        }
        i = i + 1;
    }
    None
}

/// The hardware identifier as it is stored: its units, two zeros, least significant bytes first.
pub open spec fn hardware_id_bytes() -> Seq<u8> {
    units_bytes(text::utf16(HARDWARE_ID@) + seq![0u16, 0])
}

/// The bytes of a row of units.
pub open spec fn units_bytes(units: Seq<u16>) -> Seq<u8>
    decreases units.len(),
{
    if units.len() == 0 {
        Seq::empty()
    } else {
        units_bytes(units.drop_last()) + bytes::le16(units.last())
    }
}

/// The hardware identifier as it is stored on a new node.
pub fn hardware_id_value() -> (out: Vec<u8>)
    ensures
        out@ == hardware_id_bytes(),
{
    let mut units: Vec<u16> = text::encode_utf16(HARDWARE_ID);
    units.push(0);
    units.push(0);
    assert(units@ =~= text::utf16(HARDWARE_ID@) + seq![0u16, 0]);
    let mut out: Vec<u8> = Vec::new();
    let mut i: usize = 0;
    while i < units.len()
        invariant
            i <= units@.len(),
            out@ == units_bytes(units@.take(i as int)),
        decreases units@.len() - i,
    {
        assert(units@.take(i + 1).drop_last() =~= units@.take(i as int));
        bytes::push_u16(&mut out, units[i]);
        i = i + 1;
    }
    assert(units@.take(units@.len() as int) =~= units@);
    out
}

/// The list that is made of entries, each with a zero behind it.
pub open spec fn list_of(entries: Seq<Seq<u16>>) -> Seq<u16>
    decreases entries.len(),
{
    if entries.len() == 0 {
        Seq::empty()
    } else {
        list_of(entries.drop_last()) + entries.last() + seq![0u16]
    }
}

/// A list without an entry more than it was made of.
proof fn lemma_one_entry_more(list: Seq<u16>, e: Seq<u16>, i: int, j: int)
    requires
        list.len() == 0 || list.last() == 0,
        forall|k: int| 0 <= k < e.len() ==> #[trigger] e[k] != 0,
    ensures
        ({
            let all = list + e + seq![0u16];
            &&& is_entry(all, i, j) <==> is_entry(list, i, j) || (i == list.len() && j == list.len()
                + e.len())
            &&& is_entry(list, i, j) ==> all.subrange(i, j) == list.subrange(i, j)
            &&& all.subrange(list.len() as int, (list.len() + e.len()) as int) == e
        }),
{
    let all = list + e + seq![0u16];
    let n = list.len() as int;
    let m = n + e.len();
    assert(all.subrange(n, m) =~= e);
    assert(forall|k: int| n <= k < m ==> #[trigger] all[k] == e[k - n]);
    assert(forall|k: int| 0 <= k < n ==> #[trigger] all[k] == list[k]);
    if is_entry(list, i, j) {
        assert(all.subrange(i, j) =~= list.subrange(i, j));
        assert(is_entry(all, i, j));
    }
    if is_entry(all, i, j) {
        if j < n {
            assert(is_entry(list, i, j)) by {
                assert forall|k: int| i <= k < j implies list[k] != 0 by {
                    assert(all[k] != 0);
                }
            }
        } else {
            assert(j == m) by {
                if j < m {
                    assert(all[j] == e[j - n]);
                }
            }
            if i < n {
                assert(all[n - 1] == 0);
            }
            if i > n {
                assert(all[i - 1] == e[i - 1 - n]);
            }
        }
    }
    if i == n && j == m {
        assert(n > 0 ==> all[n - 1] == list[n - 1]);
        assert(is_entry(all, i, j));
    }
}

/// A list of identifiers has exactly the identifiers it was made of, each as a whole and whatever
/// the case of its letters: neither the beginning of one nor two of them together count, nor does
/// the zero that ends the list.
pub proof fn law_list_has_its_entries(entries: Seq<Seq<u16>>, id: Seq<u16>)
    requires
        forall|k: int, m: int|
            0 <= k < entries.len() && 0 <= m < entries[k].len() ==> #[trigger] entries[k][m] != 0,
    ensures
        list_of(entries).len() == 0 || list_of(entries).last() == 0,
        lists(list_of(entries), id) <==> exists|k: int|
            0 <= k < entries.len() && same_units(#[trigger] entries[k], id),
    decreases entries.len(),
{
    let all = list_of(entries);
    if entries.len() > 0 {
        let rest = entries.drop_last();
        let list = list_of(rest);
        let e = entries.last();
        let last = entries.len() - 1;
        assert forall|k: int, m: int|
            0 <= k < rest.len() && 0 <= m < rest[k].len() implies #[trigger] rest[k][m] != 0 by {
            assert(entries[k][m] != 0);
        }
        law_list_has_its_entries(rest, id);
        assert forall|m: int| 0 <= m < e.len() implies #[trigger] e[m] != 0 by {
            assert(entries[last][m] != 0);
        }
        if lists(all, id) {
            let (i, j) = choose|i: int, j: int|
                #[trigger] is_entry(all, i, j) && same_units(all.subrange(i, j), id);
            lemma_one_entry_more(list, e, i, j);
            if is_entry(list, i, j) {
                assert(lists(list, id));
                let k = choose|k: int| 0 <= k < rest.len() && same_units(#[trigger] rest[k], id);
                assert(same_units(entries[k], id));
            } else {
                assert(same_units(entries[last], id));
            }
        }
        if exists|k: int| 0 <= k < entries.len() && same_units(#[trigger] entries[k], id) {
            let k = choose|k: int|
                0 <= k < entries.len() && same_units(#[trigger] entries[k], id);
            if k == last {
                lemma_one_entry_more(list, e, list.len() as int, (list.len() + e.len()) as int);
                assert(is_entry(all, list.len() as int, (list.len() + e.len()) as int));
            } else {
                assert(same_units(rest[k], id));
                assert(lists(list, id));
                let (i, j) = choose|i: int, j: int|
                    #[trigger] is_entry(list, i, j) && same_units(list.subrange(i, j), id);
                lemma_one_entry_more(list, e, i, j);
                assert(is_entry(all, i, j) && same_units(all.subrange(i, j), id));
            }
        }
    }
}

/// The units of a row of bytes that was made of units are these.
proof fn lemma_units_read_back(units: Seq<u16>)
    ensures
        units_bytes(units).len() == 2 * units.len(),
        units_of(units_bytes(units)) == units,
    decreases units.len(),
{
    let b = units_bytes(units);
    if units.len() > 0 {
        let rest = units.drop_last();
        let head = units_bytes(rest);
        lemma_units_read_back(rest);
        bytes::lemma_le16_read_back(units.last());
        assert forall|i: int| 0 <= i < units.len() implies units_of(b)[i] == units[i] by {
            if i < rest.len() {
                assert(units_of(head)[i] == rest[i]);
                assert(head[2 * i] == b[2 * i] && head[2 * i + 1] == b[2 * i + 1]);
            } else {
                assert(b.subrange(2 * i, 2 * i + 2) =~= bytes::le16(units.last()));
                bytes::lemma_word_of_part(b, 2 * i, bytes::le16(units.last()));
            }
        }
    }
    assert(units_of(b) =~= units);
}

/// A node that is created is one that is found: the identifier that is stored on it is a list, as
/// it is read, that has the device's own identifier.
pub proof fn law_created_node_is_found()
    ensures
        lists(units_of(hardware_id_bytes()), text::utf16(HARDWARE_ID@)),
{
    let id = text::utf16(HARDWARE_ID@);
    let list = id + seq![0u16, 0];
    lemma_units_read_back(list);
    reveal_strlit("Root\\vdev-audio");
    assert(!HARDWARE_ID@.contains('\0'));
    text::lemma_utf16_without_zero(HARDWARE_ID@);
    let n = id.len() as int;
    assert(list.subrange(0, n) =~= id);
    assert(is_entry(list, 0, n));
    assert(same_units(list.subrange(0, n), id));
}

/// The nodes that are ours are found, all of them, each once and in order, and no other is.
pub proof fn law_all_our_nodes_are_found(all: Seq<Vec<u16>>, n: int, k: int)
    requires
        0 <= n <= all.len(),
        all.len() <= usize::MAX,
        0 <= k < n,
    ensures
        ours(all, n).contains(k as usize) <==> lists(all[k]@, text::utf16(HARDWARE_ID@)),
        forall|i: int, j: int|
            0 <= i < j < ours(all, n).len() ==> #[trigger] ours(all, n)[i] < #[trigger] ours(
                all,
                n,
            )[j],
        forall|i: int| 0 <= i < ours(all, n).len() ==> #[trigger] ours(all, n)[i] < n,
    decreases n,
{
    let before = ours(all, n - 1);
    let now = ours(all, n);
    if n - 1 > 0 {
        law_all_our_nodes_are_found(
            all,
            n - 1,
            if k < n - 1 {
                k
            } else {
                0
            },
        );
    } else {
        assert(before =~= Seq::<usize>::empty());
    }
    if lists(all[n - 1]@, text::utf16(HARDWARE_ID@)) {
        assert(now == before.push((n - 1) as usize));
        assert(now[before.len() as int] == n - 1);
        if before.contains(k as usize) {
            let i = choose|i: int| 0 <= i < before.len() && before[i] == k as usize;
            assert(now[i] == k as usize);
        }
        if now.contains(k as usize) && k < n - 1 {
            let i = choose|i: int| 0 <= i < now.len() && now[i] == k as usize;
            assert(before[i] == k as usize);
        }
    }
}

/// Only the twenty-six capital letters count as other ones, the small letters 32 places behind.
pub proof fn law_units_differ_but_for_case(a: u16, b: u16)
    ensures
        lower_unit(a) == lower_unit(b) <==> a == b || (65 <= a <= 90 && b == a + 32) || (65 <= b
            <= 90 && a == b + 32),
{
}

// ---- reading values ----

/// What to do after a read into a buffer: done where it succeeded; again with the room it takes
/// where the buffer was too small; nothing where it failed otherwise or takes no room.
pub fn after_read(ok: bool, error: u32, required: u32) -> (step: ReadStep)
    ensures
        step == if ok {
            ReadStep::Done
        } else if error != INSUFFICIENT_BUFFER || required == 0 {
            ReadStep::GiveUp
        } else {
            ReadStep::Grow(required)
        },
{
    if ok {
        return ReadStep::Done;
    }
    if error != INSUFFICIENT_BUFFER || required == 0 {
        return ReadStep::GiveUp;
    }
    ReadStep::Grow(required)
}

/// The 16-bit units of a buffer; an odd byte at the end is left out.
pub open spec fn units_of(b: Seq<u8>) -> Seq<u16> {
    Seq::new((b.len() / 2) as nat, |i: int| bytes::word_at(b, 2 * i))
}

/// The 16-bit units of a buffer.
pub fn read_units(b: &[u8]) -> (units: Vec<u16>)
    ensures
        units@ == units_of(b@),
{
    let n: usize = b.len() / 2;
    let mut units: Vec<u16> = Vec::new();
    let mut i: usize = 0;
    while i < n
        invariant
            i <= n,
            n == b@.len() / 2,
            2 * n <= b@.len(),
            units@ == units_of(b@).take(i as int),
        decreases n - i,
    {
        assert(2 * i + 2 <= b.len());
        units.push(bytes::read_u16(b, 2 * i));
        i = i + 1;
        assert(units@ =~= units_of(b@).take(i as int));
    }
    assert(units_of(b@).take(n as int) =~= units_of(b@));
    units
}

/// The units in front of the first zero.
pub open spec fn before_nul(units: Seq<u16>) -> Seq<u16>
    decreases units.len(),
{
    if units.len() == 0 || units[0] == 0 {
        Seq::empty()
    } else {
        seq![units[0]] + before_nul(units.drop_first())
    }
}

proof fn lemma_before_nul(units: Seq<u16>, n: int)
    requires
        0 <= n <= units.len(),
        forall|k: int| 0 <= k < n ==> units[k] != 0,
        n == units.len() || units[n] == 0,
    ensures
        before_nul(units) == units.take(n),
    decreases n,
{
    if n == 0 {
        assert(units.take(0) =~= Seq::<u16>::empty());
    } else {
        let rest = units.drop_first();
        assert forall|k: int| 0 <= k < n - 1 implies rest[k] != 0 by {
            assert(rest[k] == units[k + 1]);
        }
        lemma_before_nul(rest, n - 1);
        assert(units.take(n) =~= seq![units[0]] + rest.take(n - 1));
    }
}

/// The instance identifier in a zero-terminated buffer.
pub fn instance_id(units: &[u16]) -> (id: String)
    ensures
        id@ == text::decoded_utf16(before_nul(units@)),
{
    let mut n: usize = 0;
    while n < units.len() && units[n] != 0
        invariant
            n <= units@.len(),
            forall|k: int| 0 <= k < n ==> units@[k] != 0,
        decreases units@.len() - n,
    {
        n = n + 1;
    }
    proof {
        lemma_before_nul(units@, n as int);
        assert(units@.take(n as int) =~= units@.subrange(0, n as int));
    }
    text::from_utf16_lossy(vstd::slice::slice_subrange(units, 0, n))
}

/// The text of a stored value without the zeros at its end; none where nothing is stored.
pub open spec fn stored_text(units: Seq<u16>) -> Option<Seq<char>> {
    if units.len() == 0 {
        None
    } else {
        Some(text::without_nuls(text::decoded_utf16(units)))
    }
}

/// An identifier that is stored with a zero behind it is read back, whatever follows the zero.
pub proof fn law_stored_identifier_is_read_back(id: Seq<char>, behind: Seq<u16>)
    requires
        !id.contains('\0'),
    ensures
        text::decoded_utf16(before_nul(text::utf16(id) + seq![0u16] + behind)) == id,
{
    let units = text::utf16(id) + seq![0u16] + behind;
    let n = text::utf16(id).len() as int;
    text::lemma_utf16_without_zero(id);
    lemma_before_nul(units, n);
    assert(units.take(n) =~= text::utf16(id));
    text::law_encoded_text_is_read_back(id, behind);
}

/// A text that is stored with zeros behind it is read back.
pub proof fn law_stored_text_is_read_back(s: Seq<char>, zeros: nat)
    requires
        s.len() == 0 || s.last() != '\0',
        text::utf16(s).len() + zeros > 0,
    ensures
        stored_text(text::utf16(s) + Seq::new(zeros, |i: int| 0u16)) == Some(s),
{
    let pad = Seq::new(zeros, |i: int| 0u16);
    text::law_encoded_text_is_read_back(s, pad);
    lemma_zeros_go(s, zeros);
}

proof fn lemma_zeros_go(s: Seq<char>, zeros: nat)
    requires
        s.len() == 0 || s.last() != '\0',
    ensures
        text::without_nuls(s + text::decoded_utf16(Seq::new(zeros, |i: int| 0u16))) == s,
    decreases zeros,
{
    let pad = Seq::new(zeros, |i: int| 0u16);
    lemma_zeros_decode(zeros);
    if zeros == 0 {
        assert(s + text::decoded_utf16(pad) =~= s);
    } else {
        let fewer = (zeros - 1) as nat;
        let t = s + text::decoded_utf16(pad);
        lemma_zeros_decode(fewer);
        lemma_zeros_go(s, fewer);
        assert(t.last() == '\0');
        assert(t.drop_last() =~= s + text::decoded_utf16(Seq::new(fewer, |i: int| 0u16)));
    }
}

proof fn lemma_zeros_decode(zeros: nat)
    ensures
        text::decoded_utf16(Seq::new(zeros, |i: int| 0u16)) == Seq::new(zeros, |i: int| '\0'),
    decreases zeros,
{
    let pad = Seq::new(zeros, |i: int| 0u16);
    if zeros > 0 {
        let fewer = (zeros - 1) as nat;
        lemma_zeros_decode(fewer);
        assert(pad.skip(1) =~= Seq::new(fewer, |i: int| 0u16));
        assert(pad[0] == 0 && 0u16 as char == '\0');
    }
    assert(text::decoded_utf16(pad) =~= Seq::new(zeros, |i: int| '\0'));
}

/// Whether an optional text is that one.
pub open spec fn is_text(s: Option<String>, t: Option<Seq<char>>) -> bool {
    match s {
        Some(s) => t == Some(s@),
        None => t is None,
    }
}

/// The text of a stored value.
fn value_text(units: &[u16]) -> (r: Option<String>)
    ensures
        is_text(r, stored_text(units@)),
{
    if units.len() == 0 {
        return None;
    }
    let s: String = text::from_utf16_lossy(units);
    Some(text::trim_end_nuls(s.as_str()))
}

/// What is known of the device: nothing where there is no node; else the texts that are stored
/// for its driver and its name.
pub fn status(found: bool, driver: &[u16], friendly_name: &[u16]) -> (st: DeviceStatus)
    ensures
        st.present == found,
        is_text(
            st.driver,
            if found {
                stored_text(driver@)
            } else {
                None
            },
        ),
        is_text(
            st.friendly_name,
            if found {
                stored_text(friendly_name@)
            } else {
                None
            },
        ),
{
    if !found {
        return DeviceStatus { present: false, driver: None, friendly_name: None };
    }
    DeviceStatus {
        present: true,
        driver: value_text(driver),
        friendly_name: value_text(friendly_name),
    }
}

// ---- the plan ----

/// What to do with `existing_nodes` nodes.
pub open spec fn plan_for(existing_nodes: int) -> InstallPlan {
    if existing_nodes == 0 {
        InstallPlan::Create
    } else if existing_nodes == 1 {
        InstallPlan::Reuse
    } else {
        InstallPlan::Recreate
    }
}

/// What to do with the nodes that exist.
pub fn install_plan(existing_nodes: usize) -> (plan: InstallPlan)
    ensures
        plan == plan_for(existing_nodes as int),
{
    if existing_nodes == 0 {
        InstallPlan::Create
    } else if existing_nodes == 1 {
        InstallPlan::Reuse
    } else {
        InstallPlan::Recreate
    }
}

// ---- removing one node ----

/// How often a node is removed before its disappearance is awaited.
pub const REMOVE_ATTEMPTS: u32 = 3;

/// How often its disappearance is looked for.
pub const GONE_POLLS: u32 = 4;

/// The pause before another removal, in milliseconds.
pub const REMOVE_PAUSE_MS: u32 = 400;

/// The pause after looking in vain, in milliseconds.
pub const POLL_PAUSE_MS: u32 = 500;

/// Why a node could not be removed.
#[derive(Clone, Copy, Debug, PartialEq, Eq, Structural)]
pub enum Failure {
    /// Its identifier cannot be read.
    Unknown(u32),
    /// It cannot be located.
    Locate(u32),
    /// The fallback reported success and the node is still there.
    StillThere,
    /// The fallback failed, after the removal ended with that code.
    Fallback(u32),
    /// The fallback could not be run, after the removal ended with that code.
    NoFallback(u32),
}

/// How far the removal of a node has come.
#[derive(Clone, Copy, Debug, PartialEq, Eq, Structural)]
pub enum NodePhase {
    /// Read its identifier.
    ReadId,
    /// Locate it.
    Locate,
    /// Remove it, for the `n`-th time.
    Remove(u32),
    /// Look whether it is gone, for the `n`-th time, after the removal ended with the code `last`
    /// and, or not, the fallback was run.
    Look { last: u32, n: u32, fallback: bool },
    /// Run the fallback, after the removal ended with that code.
    RunFallback(u32),
    /// It is gone; by the fallback where a code of the removal is given.
    Removed(Option<u32>),
    /// It could not be removed.
    Failed(Failure),
}

/// The outcome of a step.
#[derive(Clone, Copy, Debug, PartialEq, Eq, Structural)]
pub enum NodeEvent {
    /// The result code of a configuration-manager call.
    Code(u32),
    /// Whether the node is no longer listed.
    Gone(bool),
    /// The fallback ran and succeeded, or failed.
    Ran(bool),
    /// The fallback could not be run.
    NotRun,
}

/// The phase after an outcome, and the pause before it in milliseconds.
pub open spec fn next_node_phase(phase: NodePhase, event: NodeEvent) -> (NodePhase, u32) {
    match (phase, event) {
        (NodePhase::ReadId, NodeEvent::Code(cr)) => if cr == CR_SUCCESS {
            (NodePhase::Locate, 0u32)
        } else {
            (NodePhase::Failed(Failure::Unknown(cr)), 0u32)
        },
        (NodePhase::Locate, NodeEvent::Code(cr)) => if cr == CR_SUCCESS {
            (NodePhase::Remove(1), 0u32)
        } else {
            (NodePhase::Failed(Failure::Locate(cr)), 0u32)
        },
        (NodePhase::Remove(n), NodeEvent::Code(cr)) => if cr == CR_SUCCESS || n
            >= REMOVE_ATTEMPTS {
            (NodePhase::Look { last: cr, n: 1, fallback: false }, 0u32)
        } else {
            (NodePhase::Remove((n + 1) as u32), REMOVE_PAUSE_MS)
        },
        (NodePhase::Look { last, n, fallback }, NodeEvent::Gone(gone)) => if gone {
            (
                NodePhase::Removed(
                    if fallback {
                        Some(last)
                    } else {
                        None
                    },
                ),
                0u32,
            )
        } else if n < GONE_POLLS {
            (NodePhase::Look { last, n: (n + 1) as u32, fallback }, POLL_PAUSE_MS)
        } else if fallback {
            (NodePhase::Failed(Failure::StillThere), POLL_PAUSE_MS)
        } else {
            (NodePhase::RunFallback(last), POLL_PAUSE_MS)
        },
        (NodePhase::RunFallback(last), NodeEvent::Ran(ok)) => if ok {
            (NodePhase::Look { last, n: 1, fallback: true }, 0u32)
        } else {
            (NodePhase::Failed(Failure::Fallback(last)), 0u32)
        },
        (NodePhase::RunFallback(last), NodeEvent::NotRun) => (
            NodePhase::Failed(Failure::NoFallback(last)),
            0u32,
        ),
        _ => (phase, 0u32),
    }
}

/// The phase after an outcome, and the pause before it in milliseconds.
pub fn node_step(phase: NodePhase, event: NodeEvent) -> (r: (NodePhase, u32))
    ensures
        r == next_node_phase(phase, event),
{
    match (phase, event) {
        (NodePhase::ReadId, NodeEvent::Code(cr)) => if cr == CR_SUCCESS {
            (NodePhase::Locate, 0)
        } else {
            (NodePhase::Failed(Failure::Unknown(cr)), 0)
        },
        (NodePhase::Locate, NodeEvent::Code(cr)) => if cr == CR_SUCCESS {
            (NodePhase::Remove(1), 0)
        } else {
            (NodePhase::Failed(Failure::Locate(cr)), 0)
        },
        (NodePhase::Remove(n), NodeEvent::Code(cr)) => if cr == CR_SUCCESS || n
            >= REMOVE_ATTEMPTS {
            (NodePhase::Look { last: cr, n: 1, fallback: false }, 0)
        } else {
            (NodePhase::Remove(n + 1), REMOVE_PAUSE_MS)
        },
        (NodePhase::Look { last, n, fallback }, NodeEvent::Gone(gone)) => if gone {
            let by: Option<u32> = if fallback {
                Some(last)
            } else {
                None
            };
            (NodePhase::Removed(by), 0)
        } else if n < GONE_POLLS {
            (NodePhase::Look { last, n: n + 1, fallback }, POLL_PAUSE_MS)
        } else if fallback {
            (NodePhase::Failed(Failure::StillThere), POLL_PAUSE_MS)
        } else {
            (NodePhase::RunFallback(last), POLL_PAUSE_MS)
        },
        (NodePhase::RunFallback(last), NodeEvent::Ran(ok)) => if ok {
            (NodePhase::Look { last, n: 1, fallback: true }, 0)
        } else {
            (NodePhase::Failed(Failure::Fallback(last)), 0)
        },
        (NodePhase::RunFallback(last), NodeEvent::NotRun) => (
            NodePhase::Failed(Failure::NoFallback(last)),
            0,
        ),
        _ => (phase, 0),
    }
}

/// Whether `id` is none of the listed instances, whatever the case.
pub fn is_gone(listed: &Vec<String>, id: &str) -> (gone: bool)
    ensures
        gone == !exists|i: int|
            0 <= i < listed@.len() && text::same_but_case((#[trigger] listed@[i])@, id@),
{
    let mut i: usize = 0;
    while i < listed.len()
        invariant
            i <= listed@.len(),
            forall|k: int|
                0 <= k < i ==> !text::same_but_case((#[trigger] listed@[k])@, id@),
        decreases listed@.len() - i,
    {
        if text::eq_ignore_ascii_case(listed[i].as_str(), id) {
            return false;
        }
        i = i + 1;
    }
    true
}

/// A node counts as removed only when it was looked for and not found: what the removal itself
/// reports never decides.
pub proof fn law_removed_means_seen_gone(phase: NodePhase, event: NodeEvent)
    requires
        !(phase is Removed),
        next_node_phase(phase, event).0 is Removed,
    ensures
        event == NodeEvent::Gone(true),
        phase is Look,
{
}

/// A bound on the outcomes that are still needed: every phase that is not an end has one, and
/// every outcome that fits it lowers it.
pub open spec fn steps_left(phase: NodePhase) -> int {
    match phase {
        NodePhase::ReadId => 20,
        NodePhase::Locate => 19,
        NodePhase::Remove(n) => if n < REMOVE_ATTEMPTS {
            18 - n
        } else {
            14
        },
        NodePhase::Look { last, n, fallback } => if fallback {
            if n < GONE_POLLS {
                5 - n
            } else {
                1
            }
        } else if n < GONE_POLLS {
            11 - n
        } else {
            6
        },
        NodePhase::RunFallback(_) => 5,
        NodePhase::Removed(_) => 0,
        NodePhase::Failed(_) => 0,
    }
}

/// The outcome that a phase waits for.
pub open spec fn fits(phase: NodePhase, event: NodeEvent) -> bool {
    match phase {
        NodePhase::ReadId => event is Code,
        NodePhase::Locate => event is Code,
        NodePhase::Remove(_) => event is Code,
        NodePhase::Look { .. } => event is Gone,
        NodePhase::RunFallback(_) => event is Ran || event is NotRun,
        _ => false,
    }
}

/// Removing a node ends: every fitting outcome brings it closer to an end, which is one of
/// removed and failed.
pub proof fn law_removal_ends(phase: NodePhase, event: NodeEvent)
    requires
        fits(phase, event),
    ensures
        0 <= steps_left(next_node_phase(phase, event).0) < steps_left(phase),
        steps_left(next_node_phase(phase, event).0) == 0 ==> next_node_phase(phase, event).0
            is Removed || next_node_phase(phase, event).0 is Failed,
{
}

/// Where the removal of a node stands after a row of outcomes.
pub open spec fn node_after(phase: NodePhase, events: Seq<NodeEvent>) -> NodePhase
    decreases events.len(),
{
    if events.len() == 0 {
        phase
    } else {
        next_node_phase(node_after(phase, events.drop_last()), events.last()).0
    }
}

/// A node that is identified and located is removed at once, and is gone at the first look: four
/// outcomes and no pause. One that is not identified, or not located, fails with the code of that
/// call, and nothing is removed.
pub proof fn law_plain_removal_takes_no_pause(code: u32)
    requires
        code != 0,
    ensures
        ({
            let identified = next_node_phase(NodePhase::ReadId, NodeEvent::Code(0));
            let located = next_node_phase(identified.0, NodeEvent::Code(0));
            let removed = next_node_phase(located.0, NodeEvent::Code(0));
            let gone = next_node_phase(removed.0, NodeEvent::Gone(true));
            &&& located.0 is Remove
            &&& removed.0 is Look
            &&& gone.0 == NodePhase::Removed(None)
            &&& identified.1 == 0 && located.1 == 0 && removed.1 == 0 && gone.1 == 0
            &&& next_node_phase(NodePhase::ReadId, NodeEvent::Code(code)).0 == NodePhase::Failed(
                Failure::Unknown(code),
            )
            &&& next_node_phase(identified.0, NodeEvent::Code(code)).0 == NodePhase::Failed(
                Failure::Locate(code),
            )
        }),
{
}

/// A removal that is refused is tried again, three times in all, with a pause of 400 milliseconds
/// before each further try; whatever the last code is, the node is then looked for, and the code
/// is kept. A try that succeeds ends the tries at once.
pub proof fn law_refused_removal_is_tried_three_times(codes: Seq<u32>)
    requires
        1 <= codes.len() <= 3,
        forall|i: int| 0 <= i < codes.len() - 1 ==> #[trigger] codes[i] != 0,
    ensures
        ({
            let events = codes.map_values(|c: u32| NodeEvent::Code(c));
            let start = NodePhase::Remove(1);
            let end = node_after(start, events);
            &&& (codes.last() == 0 || codes.len() == 3) ==> end == NodePhase::Look {
                last: codes.last(),
                n: 1,
                fallback: false,
            }
            &&& (codes.last() != 0 && codes.len() < 3) ==> end == NodePhase::Remove(
                (codes.len() + 1) as u32,
            ) && next_node_phase(node_after(start, events.drop_last()), events.last()).1 == 400
        }),
{
    let events = codes.map_values(|c: u32| NodeEvent::Code(c));
    reveal_with_fuel(node_after, 4);
    assert(events.drop_last().len() == codes.len() - 1);
    if codes.len() > 1 {
        assert(codes[0] != 0);
        assert(events[0] == NodeEvent::Code(codes[0]));
    }
    if codes.len() > 2 {
        assert(codes[1] != 0);
        assert(events[1] == NodeEvent::Code(codes[1]));
    }
    assert(events.last() == NodeEvent::Code(codes.last()));
}

/// A node that was removed is looked for up to four times, half a second apart. Seen gone at any
/// of these, it is removed, by the fallback if that had been run. Still there at the fourth, the
/// fallback is run, once: after it, there are four more looks, and then the node counts as still
/// there.
pub proof fn law_node_is_looked_for_four_times(last: u32, fallback: bool, misses: nat)
    requires
        misses <= 4,
    ensures
        ({
            let start = NodePhase::Look { last, n: 1, fallback };
            let missed = Seq::new(misses, |i: int| NodeEvent::Gone(false));
            let end = node_after(start, missed);
            &&& misses < 4 ==> end == (NodePhase::Look {
                last,
                n: (misses + 1) as u32,
                fallback,
            }) && next_node_phase(end, NodeEvent::Gone(true)) == (
                NodePhase::Removed(
                    if fallback {
                        Some(last)
                    } else {
                        None
                    },
                ),
                0u32,
            ) && next_node_phase(end, NodeEvent::Gone(false)).1 == 500
            &&& misses == 4 ==> end == if fallback {
                NodePhase::Failed(Failure::StillThere)
            } else {
                NodePhase::RunFallback(last)
            }
        }),
    decreases misses,
{
    if misses > 0 {
        let less = (misses - 1) as nat;
        law_node_is_looked_for_four_times(last, fallback, less);
        let missed = Seq::new(misses, |i: int| NodeEvent::Gone(false));
        assert(missed.drop_last() =~= Seq::new(less, |i: int| NodeEvent::Gone(false)));
    }
}

/// The fallback decides by what it did: after a success the node is looked for again, a failure
/// and one that could not be run end the removal, and each keeps the code that led to it.
pub proof fn law_fallback_is_looked_after(last: u32)
    ensures
        next_node_phase(NodePhase::RunFallback(last), NodeEvent::Ran(true)).0 == (NodePhase::Look {
            last,
            n: 1,
            fallback: true,
        }),
        next_node_phase(NodePhase::RunFallback(last), NodeEvent::Ran(false)).0
            == NodePhase::Failed(Failure::Fallback(last)),
        next_node_phase(NodePhase::RunFallback(last), NodeEvent::NotRun).0 == NodePhase::Failed(
            Failure::NoFallback(last),
        ),
{
}

// ---- installing and uninstalling ----

/// How often the nodes are listed again after the first time.
pub const RECOUNTS: u32 = 6;

/// How far the installation has come.
#[derive(Clone, Copy, Debug, PartialEq, Eq, Structural)]
pub enum InstallPhase {
    /// See whether the driver's file is there.
    CheckInf,
    /// Read the device class from it.
    ReadClass,
    /// List the nodes that exist.
    ListNodes,
    /// Remove all nodes.
    RemoveNodes,
    /// Create a node.
    CreateNode,
    /// Install the driver.
    InstallDriver,
    /// List the nodes, for the `n`-th time after the first.
    Recount(u32),
    /// Installed.
    Installed,
    /// The driver's file is not there.
    NoInf,
    /// A step failed.
    Broken,
    /// There is not exactly one node afterwards.
    WrongCount,
}

/// The outcome of a step of the installation.
#[derive(Clone, Copy, Debug, PartialEq, Eq, Structural)]
pub enum InstallEvent {
    /// It succeeded, or failed.
    Did(bool),
    /// So many nodes are listed.
    Nodes(usize),
}

/// The phase after an outcome, and the pause before it in milliseconds.
pub open spec fn next_install_phase(phase: InstallPhase, event: InstallEvent) -> (
    InstallPhase,
    u32,
) {
    match (phase, event) {
        (InstallPhase::CheckInf, InstallEvent::Did(there)) => if there {
            (InstallPhase::ReadClass, 0u32)
        } else {
            (InstallPhase::NoInf, 0u32)
        },
        (InstallPhase::ListNodes, InstallEvent::Nodes(n)) => match plan_for(n as int) {
            InstallPlan::Create => (InstallPhase::CreateNode, 0u32),
            InstallPlan::Reuse => (InstallPhase::InstallDriver, 0u32),
            InstallPlan::Recreate => (InstallPhase::RemoveNodes, 0u32),
        },
        (InstallPhase::Recount(k), InstallEvent::Nodes(n)) => if n == 1 {
            (InstallPhase::Installed, 0u32)
        } else if k < RECOUNTS {
            (InstallPhase::Recount((k + 1) as u32), POLL_PAUSE_MS)
        } else {
            (InstallPhase::WrongCount, 0u32)
        },
        (InstallPhase::ReadClass, InstallEvent::Did(true)) => (InstallPhase::ListNodes, 0u32),
        (InstallPhase::RemoveNodes, InstallEvent::Did(true)) => (InstallPhase::CreateNode, 0u32),
        (InstallPhase::CreateNode, InstallEvent::Did(true)) => (InstallPhase::InstallDriver, 0u32),
        (InstallPhase::InstallDriver, InstallEvent::Did(true)) => (InstallPhase::Recount(0), 0u32),
        (InstallPhase::Installed, _) => (phase, 0u32),
        (InstallPhase::NoInf, _) => (phase, 0u32),
        (InstallPhase::WrongCount, _) => (phase, 0u32),
        _ => (InstallPhase::Broken, 0u32),
    }
}

/// The phase after an outcome, and the pause before it in milliseconds.
pub fn install_step(phase: InstallPhase, event: InstallEvent) -> (r: (InstallPhase, u32))
    ensures
        r == next_install_phase(phase, event),
{
    match (phase, event) {
        (InstallPhase::CheckInf, InstallEvent::Did(there)) => if there {
            (InstallPhase::ReadClass, 0)
        } else {
            (InstallPhase::NoInf, 0)
        },
        (InstallPhase::ListNodes, InstallEvent::Nodes(n)) => match install_plan(n) {
            InstallPlan::Create => (InstallPhase::CreateNode, 0),
            InstallPlan::Reuse => (InstallPhase::InstallDriver, 0),
            InstallPlan::Recreate => (InstallPhase::RemoveNodes, 0),
        },
        (InstallPhase::Recount(k), InstallEvent::Nodes(n)) => if n == 1 {
            (InstallPhase::Installed, 0)
        } else if k < RECOUNTS {
            (InstallPhase::Recount(k + 1), POLL_PAUSE_MS)
        } else {
            (InstallPhase::WrongCount, 0)
        },
        (InstallPhase::ReadClass, InstallEvent::Did(true)) => (InstallPhase::ListNodes, 0),
        (InstallPhase::RemoveNodes, InstallEvent::Did(true)) => (InstallPhase::CreateNode, 0),
        (InstallPhase::CreateNode, InstallEvent::Did(true)) => (InstallPhase::InstallDriver, 0),
        (InstallPhase::InstallDriver, InstallEvent::Did(true)) => (InstallPhase::Recount(0), 0),
        (InstallPhase::Installed, _) => (phase, 0),
        (InstallPhase::NoInf, _) => (phase, 0),
        (InstallPhase::WrongCount, _) => (phase, 0),
        _ => (InstallPhase::Broken, 0),
    }
}

/// The installation succeeds only with exactly one node seen afterwards.
pub proof fn law_installed_means_one_node(phase: InstallPhase, event: InstallEvent)
    requires
        phase != InstallPhase::Installed,
        next_install_phase(phase, event).0 == InstallPhase::Installed,
    ensures
        event == InstallEvent::Nodes(1),
        phase is Recount,
{
}

/// Where the installation stands after a row of outcomes.
pub open spec fn phase_after(phase: InstallPhase, events: Seq<InstallEvent>) -> InstallPhase
    decreases events.len(),
{
    if events.len() == 0 {
        phase
    } else {
        next_install_phase(phase_after(phase, events.drop_last()), events.last()).0
    }
}

/// Installing again is harmless: with one node in place, whatever happens afterwards, no node is
/// removed and none is created, so the device keeps its identity.
pub proof fn law_reinstalling_keeps_the_node(events: Seq<InstallEvent>)
    ensures
        phase_after(
            next_install_phase(InstallPhase::ListNodes, InstallEvent::Nodes(1)).0,
            events,
        ) != InstallPhase::RemoveNodes,
        phase_after(
            next_install_phase(InstallPhase::ListNodes, InstallEvent::Nodes(1)).0,
            events,
        ) != InstallPhase::CreateNode,
{
    lemma_nodes_stay(events);
}

proof fn lemma_nodes_stay(events: Seq<InstallEvent>)
    ensures
        match phase_after(InstallPhase::InstallDriver, events) {
            InstallPhase::InstallDriver => true,
            InstallPhase::Recount(_) => true,
            InstallPhase::Installed => true,
            InstallPhase::WrongCount => true,
            InstallPhase::Broken => true,
            _ => false,
        },
    decreases events.len(),
{
    if events.len() > 0 {
        lemma_nodes_stay(events.drop_last());
    }
}

/// A driver is installed only on a node: over any row of outcomes from the start, where the
/// installing of the driver is reached, either a node was created, or exactly one was listed.
pub proof fn law_driver_goes_on_a_node(events: Seq<InstallEvent>)
    requires
        phase_after(InstallPhase::CheckInf, events) == InstallPhase::InstallDriver,
    ensures
        exists|i: int|
            0 <= i < events.len() && ((#[trigger] phase_after(
                InstallPhase::CheckInf,
                events.take(i),
            ) == InstallPhase::CreateNode && events[i] == InstallEvent::Did(true)) || (phase_after(
                InstallPhase::CheckInf,
                events.take(i),
            ) == InstallPhase::ListNodes && events[i] == InstallEvent::Nodes(1))),
    decreases events.len(),
{
    if events.len() > 0 {
        let i = events.len() - 1;
        let rest = events.drop_last();
        assert(events.take(i) =~= rest);
        let before = phase_after(InstallPhase::CheckInf, rest);
        assert(before != InstallPhase::InstallDriver);
        assert(phase_after(InstallPhase::CheckInf, events.take(i)) == before);
    }
}

/// A node is created only where none was listed, or where more than one was and all were removed
/// first.
pub proof fn law_node_is_created_only_where_none_is_left(phase: InstallPhase, event: InstallEvent)
    requires
        phase != InstallPhase::CreateNode,
    ensures
        next_install_phase(phase, event).0 == InstallPhase::CreateNode <==> (phase
            == InstallPhase::ListNodes && event == InstallEvent::Nodes(0)) || (phase
            == InstallPhase::RemoveNodes && event == InstallEvent::Did(true)),
        next_install_phase(phase, event).0 == InstallPhase::RemoveNodes && phase
            != InstallPhase::RemoveNodes ==> phase == InstallPhase::ListNodes && event is Nodes
            && event->Nodes_0 >= 2,
{
}

/// The outcome of a phase where every step succeeds and `nodes` nodes are listed.
pub open spec fn smooth_outcome(phase: InstallPhase, nodes: usize) -> InstallEvent {
    match phase {
        InstallPhase::ListNodes => InstallEvent::Nodes(nodes),
        InstallPhase::Recount(_) => InstallEvent::Nodes(nodes),
        _ => InstallEvent::Did(true),
    }
}

/// How many nodes there are after a phase was worked through.
pub open spec fn nodes_then(phase: InstallPhase, nodes: usize) -> usize {
    match phase {
        InstallPhase::RemoveNodes => 0,
        InstallPhase::CreateNode => (nodes + 1) as usize,
        _ => nodes,
    }
}

/// An installation in which every step succeeds, after `steps` steps: the phase, how many nodes
/// there are, and how many of the steps created one or removed all.
pub open spec fn smooth_run(nodes: usize, steps: nat) -> (InstallPhase, usize, int, int)
    decreases steps,
{
    if steps == 0 {
        (InstallPhase::CheckInf, nodes, 0, 0)
    } else {
        let (phase, now, created, cleared) = smooth_run(nodes, (steps - 1) as nat);
        (
            next_install_phase(phase, smooth_outcome(phase, now)).0,
            nodes_then(phase, now),
            if phase == InstallPhase::CreateNode {
                created + 1
            } else {
                created
            },
            if phase == InstallPhase::RemoveNodes {
                cleared + 1
            } else {
                cleared
            },
        )
    }
}

/// However many nodes there are, an installation in which every step succeeds ends installed,
/// within seven steps, with exactly one node: with none at first, one is created; with one, it is
/// kept; with more, all are removed and one is created.
pub proof fn law_smooth_installation_leaves_one_node(nodes: usize)
    ensures
        ({
            let (phase, left, created, cleared) = smooth_run(nodes, 7);
            &&& phase == InstallPhase::Installed
            &&& left == 1
            &&& created == if nodes == 1 {
                0int
            } else {
                1
            }
            &&& cleared == if nodes >= 2 {
                1int
            } else {
                0
            }
        }),
{
    reveal_with_fuel(smooth_run, 8);
}

/// A step that fails ends the installation: without the driver's file in its own way, and broken
/// with any other step; no later outcome revives it.
pub proof fn law_failed_step_ends_the_installation(phase: InstallPhase, event: InstallEvent)
    requires
        phase == InstallPhase::CheckInf || phase == InstallPhase::ReadClass || phase
            == InstallPhase::RemoveNodes || phase == InstallPhase::CreateNode || phase
            == InstallPhase::InstallDriver,
    ensures
        ({
            let end = next_install_phase(phase, InstallEvent::Did(false)).0;
            &&& end == if phase == InstallPhase::CheckInf {
                InstallPhase::NoInf
            } else {
                InstallPhase::Broken
            }
            &&& next_install_phase(end, event).0 == end
        }),
        next_install_phase(InstallPhase::Installed, event).0 == InstallPhase::Installed,
        next_install_phase(InstallPhase::WrongCount, event).0 == InstallPhase::WrongCount,
{
}

/// After the driver is installed the nodes are listed up to seven times, half a second apart. The
/// first listing of exactly one ends it installed; seven others end it with a wrong count, and
/// not before.
pub proof fn law_nodes_are_recounted_six_times(counts: Seq<usize>)
    requires
        counts.len() <= 7,
        forall|i: int| 0 <= i < counts.len() ==> #[trigger] counts[i] != 1,
    ensures
        ({
            let listed = counts.map_values(|n: usize| InstallEvent::Nodes(n));
            let start = next_install_phase(InstallPhase::InstallDriver, InstallEvent::Did(true)).0;
            let end = phase_after(start, listed);
            &&& counts.len() < 7 ==> end is Recount && next_install_phase(
                end,
                InstallEvent::Nodes(1),
            ).0 == InstallPhase::Installed
            &&& counts.len() < 6 ==> next_install_phase(end, InstallEvent::Nodes(0)).1 == 500
                && next_install_phase(end, InstallEvent::Nodes(2)).1 == 500
            &&& counts.len() == 7 ==> end == InstallPhase::WrongCount
        }),
{
    lemma_recounts(counts);
}

/// Each listing of another number than one raises the count of the listings.
proof fn lemma_recounts(counts: Seq<usize>)
    requires
        counts.len() <= 7,
        forall|i: int| 0 <= i < counts.len() ==> #[trigger] counts[i] != 1,
    ensures
        phase_after(
            InstallPhase::Recount(0),
            counts.map_values(|n: usize| InstallEvent::Nodes(n)),
        ) == if counts.len() < 7 {
            InstallPhase::Recount(counts.len() as u32)
        } else {
            InstallPhase::WrongCount
        },
    decreases counts.len(),
{
    let listed = counts.map_values(|n: usize| InstallEvent::Nodes(n));
    if counts.len() > 0 {
        let rest = counts.drop_last();
        lemma_recounts(rest);
        assert(listed.drop_last() =~= rest.map_values(|n: usize| InstallEvent::Nodes(n)));
        assert(listed.last() == InstallEvent::Nodes(counts.last()));
    }
}

/// How far the removal of the device has come, once its nodes were removed.
#[derive(Clone, Copy, Debug, PartialEq, Eq, Structural)]
pub enum UninstallPhase {
    /// There was no node.
    NothingFound,
    /// List the nodes, for the `n`-th time after the first.
    Recount(u32),
    /// None is left.
    Gone,
    /// Some are left.
    LeftOver,
}

/// Where the removal stands once `removed` nodes were removed.
pub fn uninstall_begin(removed: usize) -> (phase: UninstallPhase)
    ensures
        phase == if removed == 0 {
            UninstallPhase::NothingFound
        } else {
            UninstallPhase::Recount(0)
        },
{
    if removed == 0 {
        return UninstallPhase::NothingFound;
    }
    UninstallPhase::Recount(0)
}

/// The phase after `left` nodes were listed, and the pause before it in milliseconds.
pub open spec fn next_uninstall_phase(phase: UninstallPhase, left: usize) -> (UninstallPhase, u32) {
    match phase {
        UninstallPhase::Recount(k) => if left == 0 {
            (UninstallPhase::Gone, 0u32)
        } else if k < RECOUNTS {
            (UninstallPhase::Recount((k + 1) as u32), POLL_PAUSE_MS)
        } else {
            (UninstallPhase::LeftOver, 0u32)
        },
        _ => (phase, 0u32),
    }
}

/// The phase after `left` nodes were listed.
pub fn uninstall_step(phase: UninstallPhase, left: usize) -> (r: (UninstallPhase, u32))
    ensures
        r == next_uninstall_phase(phase, left),
{
    match phase {
        UninstallPhase::Recount(k) => if left == 0 {
            (UninstallPhase::Gone, 0)
        } else if k < RECOUNTS {
            (UninstallPhase::Recount(k + 1), POLL_PAUSE_MS)
        } else {
            (UninstallPhase::LeftOver, 0)
        },
        _ => (phase, 0),
    }
}

/// The device counts as removed only when no node is left.
pub proof fn law_uninstalled_means_no_node(phase: UninstallPhase, left: usize)
    requires
        phase != UninstallPhase::Gone,
        next_uninstall_phase(phase, left).0 == UninstallPhase::Gone,
    ensures
        left == 0,
{
}

/// Where the removal of the device stands after a row of listings.
pub open spec fn uninstall_after(phase: UninstallPhase, left: Seq<usize>) -> UninstallPhase
    decreases left.len(),
{
    if left.len() == 0 {
        phase
    } else {
        next_uninstall_phase(uninstall_after(phase, left.drop_last()), left.last()).0
    }
}

/// After nodes were removed they are listed up to seven times, half a second apart: the first
/// listing without any ends it as gone, seven with some end it with nodes left over, and not
/// before. Both ends stay.
pub proof fn law_removed_nodes_are_awaited(left: Seq<usize>, more: usize)
    requires
        left.len() <= 7,
        forall|i: int| 0 <= i < left.len() ==> #[trigger] left[i] > 0,
    ensures
        ({
            let end = uninstall_after(UninstallPhase::Recount(0), left);
            &&& left.len() < 7 ==> end == UninstallPhase::Recount(left.len() as u32)
                && next_uninstall_phase(end, 0) == (UninstallPhase::Gone, 0u32)
            &&& left.len() < 6 && more > 0 ==> next_uninstall_phase(end, more).1 == 500
            &&& left.len() == 7 ==> end == UninstallPhase::LeftOver
        }),
        next_uninstall_phase(UninstallPhase::Gone, more).0 == UninstallPhase::Gone,
        next_uninstall_phase(UninstallPhase::LeftOver, more).0 == UninstallPhase::LeftOver,
        next_uninstall_phase(UninstallPhase::NothingFound, more).0 == UninstallPhase::NothingFound,
    decreases left.len(),
{
    if left.len() > 0 {
        law_removed_nodes_are_awaited(left.drop_last(), more);
    }
}

// ---- removing all nodes ----

/// The removal of all nodes: each in turn, and one that fails stops none of the others.
pub struct Removal {
    /// How many there are.
    pub nodes: usize,
    /// The one that is being removed.
    pub node: usize,
    /// How far that has come.
    pub phase: NodePhase,
    /// How many are removed.
    pub removed: usize,
    /// Those that could not be removed, and why.
    pub failures: Vec<(usize, Failure)>,
}

impl Removal {
    /// Every node before the present one is either removed or among the failures, and the present
    /// one is at neither end.
    pub open spec fn wf(self) -> bool {
        &&& self.node <= self.nodes
        &&& self.removed + self.failures@.len() == self.node
        &&& !(self.phase is Removed)
        &&& !(self.phase is Failed)
        &&& forall|i: int|
            0 <= i < self.failures@.len() ==> (#[trigger] self.failures@[i]).0 < self.node
    }

    /// Nothing is left to do.
    pub open spec fn done(self) -> bool {
        self.node == self.nodes
    }

    /// Starts with the first node.
    pub fn begin(nodes: usize) -> (r: Removal)
        ensures
            r.wf(),
            r.nodes == nodes,
            r.node == 0,
            r.phase == NodePhase::ReadId,
            r.removed == 0,
            r.failures@ == Seq::<(usize, Failure)>::empty(),
    {
        Removal { nodes, node: 0, phase: NodePhase::ReadId, removed: 0, failures: Vec::new() }
    }

    /// Whether every node was dealt with.
    pub fn is_done(&self) -> (yes: bool)
        ensures
            yes == self.done(),
    {
        self.node == self.nodes
    }

    /// Takes the outcome of a step: the present node goes on, or it is counted and the next one
    /// begins. Gives the pause before the next step, and the code of the removal where the
    /// fallback removed the node.
    pub fn step(&mut self, event: NodeEvent) -> (r: (u32, Option<u32>))
        requires
            old(self).wf(),
            !old(self).done(),
        ensures
            final(self).wf(),
            final(self).nodes == old(self).nodes,
            r.0 == next_node_phase(old(self).phase, event).1,
            match next_node_phase(old(self).phase, event).0 {
                NodePhase::Removed(by) => {
                    &&& r.1 == by
                    &&& final(self).node == old(self).node + 1
                    &&& final(self).phase == NodePhase::ReadId
                    &&& final(self).removed == old(self).removed + 1
                    &&& final(self).failures@ == old(self).failures@
                },
                NodePhase::Failed(why) => {
                    &&& r.1 is None
                    &&& final(self).node == old(self).node + 1
                    &&& final(self).phase == NodePhase::ReadId
                    &&& final(self).removed == old(self).removed
                    &&& final(self).failures@ == old(self).failures@.push((old(self).node, why))
                },
                phase => {
                    &&& r.1 is None
                    &&& final(self).node == old(self).node
                    &&& final(self).phase == phase
                    &&& final(self).removed == old(self).removed
                    &&& final(self).failures@ == old(self).failures@
                },
            },
    {
        let (phase, pause): (NodePhase, u32) = node_step(self.phase, event);
        match phase {
            NodePhase::Removed(by) => {
                self.removed = self.removed + 1;
                self.node = self.node + 1;
                self.phase = NodePhase::ReadId;
                (pause, by)
            },
            NodePhase::Failed(why) => {
                self.failures.push((self.node, why));
                self.node = self.node + 1;
                self.phase = NodePhase::ReadId;
                (pause, None)
            },
            _ => {
                self.phase = phase;
                (pause, None)
            },
        }
    }

    /// How many nodes were removed, or, where some could not be, the text that says how many.
    pub fn outcome(&self) -> (r: Result<usize, String>)
        ensures
            r is Ok <==> self.failures@.len() == 0,
            r is Ok ==> r->Ok_0 == self.removed,
            r is Err ==> r->Err_0@ == "有 "@ + text::decimal(self.failures@.len())
                + " 个 vdev-audio 设备节点未能移除（管理员权限？设备被占用？）"@,
    {
        if self.failures.len() == 0 {
            return Ok(self.removed);
        }
        let mut s: String = String::from_str("有 ");
        text::push_decimal(&mut s, self.failures.len() as u64);
        s.append(" 个 vdev-audio 设备节点未能移除（管理员权限？设备被占用？）");
        Err(s)
    }
}

/// When the removal succeeds, every node that there was is removed.
pub proof fn law_success_means_all_removed(r: Removal)
    requires
        r.wf(),
        r.done(),
        r.failures@.len() == 0,
    ensures
        r.removed == r.nodes,
{
}

// ---- what is reported ----

/// An exit code as it is shown: none where the process was ended by other means.
pub open spec fn exit_text(code: Option<i32>) -> Seq<char> {
    match code {
        Some(c) => "Some("@ + text::signed_decimal(c as int) + ")"@,
        None => "None"@,
    }
}

/// Why a node could not be removed, in words. `exit` and `detail` are the fallback's exit code and
/// what it wrote, or the error that kept it from running.
pub open spec fn failure_words(why: Failure, exit: Option<i32>, detail: Seq<char>) -> Seq<char> {
    match why {
        Failure::Unknown(cr) => "CM_Get_Device_IDW 0x"@ + text::hex8(cr),
        Failure::Locate(cr) => "CM_Locate_DevNodeW 0x"@ + text::hex8(cr),
        Failure::StillThere => "pnputil 报成功但节点仍在"@,
        Failure::Fallback(last) => "CfgMgr 0x"@ + text::hex8(last) + "；pnputil exit="@
            + exit_text(exit) + " "@ + detail,
        Failure::NoFallback(last) => "CfgMgr 0x"@ + text::hex8(last)
            + "；pnputil 无法执行: "@ + detail,
    }
}

/// Appends an exit code as it is shown.
fn push_exit(s: &mut String, code: Option<i32>)
    ensures
        final(s)@ == old(s)@ + exit_text(code),
{
    match code {
        Some(c) => {
            s.append("Some(");
            text::push_signed(s, c as i64);
            s.append(")");
            assert(s@ =~= old(s)@ + exit_text(code));
        },
        None => {
            s.append("None");
        },
    }
}

/// Why a node could not be removed, in words.
pub fn failure_text(why: Failure, exit: Option<i32>, detail: &str) -> (s: String)
    ensures
        s@ == failure_words(why, exit, detail@),
{
    match why {
        Failure::Unknown(cr) => {
            let mut s: String = String::from_str("CM_Get_Device_IDW 0x");
            text::push_hex8(&mut s, cr);
            s
        },
        Failure::Locate(cr) => {
            let mut s: String = String::from_str("CM_Locate_DevNodeW 0x");
            text::push_hex8(&mut s, cr);
            s
        },
        Failure::StillThere => String::from_str("pnputil 报成功但节点仍在"),
        Failure::Fallback(last) => {
            let mut s: String = String::from_str("CfgMgr 0x");
            text::push_hex8(&mut s, last);
            s.append("；pnputil exit=");
            push_exit(&mut s, exit);
            s.append(" ");
            s.append(detail);
            s
        },
        Failure::NoFallback(last) => {
            let mut s: String = String::from_str("CfgMgr 0x");
            text::push_hex8(&mut s, last);
            s.append("；pnputil 无法执行: ");
            s.append(detail);
            s
        },
    }
}

/// The line that reports a node that could not be removed; `id` is none where it is not known.
pub fn failure_line(id: Option<&str>, why: &str) -> (s: String)
    ensures
        s@ == "  ! 未能移除 "@ + (match id {
            Some(id) => id@,
            None => "<unknown>"@,
        }) + "："@ + why@,
{
    let mut s: String = String::from_str("  ! 未能移除 ");
    match id {
        Some(id) => {
            s.append(id);
        },
        None => {
            s.append("<unknown>");
        },
    }
    s.append("：");
    s.append(why);
    s
}

/// The line that reports that the fallback removed a node after the removal ended with `last`.
pub fn fallback_line(last: u32) -> (s: String)
    ensures
        s@ == "  （CfgMgr 回 0x"@ + text::hex8(last)
            + " 但节点未消失，已用 pnputil 兜底移除）"@,
{
    let mut s: String = String::from_str("  （CfgMgr 回 0x");
    text::push_hex8(&mut s, last);
    s.append(" 但节点未消失，已用 pnputil 兜底移除）");
    s
}

/// What is said of the nodes that exist before the installation goes on, if anything.
pub open spec fn plan_words(ids: Seq<Seq<char>>) -> Option<Seq<char>> {
    match plan_for(ids.len() as int) {
        InstallPlan::Create => None,
        InstallPlan::Reuse => Some(
            "已存在设备节点 "@ + text::joined(ids, ", "@)
                + "，就地更新驱动（不重建节点，端点 GUID 保持不变）"@,
        ),
        InstallPlan::Recreate => Some(
            "检测到 "@ + text::decimal(ids.len()) + " 个 vdev-audio 节点（应为 1）："@
                + text::joined(ids, ", "@) + "，先全部清理后重建"@,
        ),
    }
}

/// What is said of the nodes that exist before the installation goes on.
pub fn plan_line(ids: &Vec<String>) -> (r: Option<String>)
    ensures
        is_text(r, plan_words(text::texts(ids@))),
{
    match install_plan(ids.len()) {
        InstallPlan::Create => None,
        InstallPlan::Reuse => {
            let mut s: String = String::from_str("已存在设备节点 ");
            let list: String = text::join(ids, ", ");
            s.append(list.as_str());
            s.append("，就地更新驱动（不重建节点，端点 GUID 保持不变）");
            Some(s)
        },
        InstallPlan::Recreate => {
            let mut s: String = String::from_str("检测到 ");
            text::push_decimal(&mut s, ids.len() as u64);
            s.append(" 个 vdev-audio 节点（应为 1）：");
            let list: String = text::join(ids, ", ");
            s.append(list.as_str());
            s.append("，先全部清理后重建");
            Some(s)
        },
    }
}

/// What is said once the left-over nodes are removed.
pub fn cleaned_line(removed: usize) -> (s: String)
    ensures
        s@ == "已清理 "@ + text::decimal(removed as nat) + " 个残留设备节点"@,
{
    let mut s: String = String::from_str("已清理 ");
    text::push_decimal(&mut s, removed as u64);
    s.append(" 个残留设备节点");
    s
}

/// How the installation ends, by the nodes that are listed last: what is said with exactly one,
/// or else the error.
pub open spec fn installed_words(ids: Seq<Seq<char>>) -> Result<Seq<char>, Seq<char>> {
    if ids.len() == 1 {
        Ok("虚拟声卡驱动已安装（设备节点 "@ + ids[0] + "）"@)
    } else {
        Err(
            "安装后 vdev-audio 节点数为 "@ + text::decimal(ids.len()) + "（应为 1）："@ + (
            if ids.len() == 0 {
                "<none>"@
            } else {
                text::joined(ids, ", "@)
            }) + "（残留节点请先 uninstall 清理）"@,
        )
    }
}

/// How the installation ends, by the nodes that are listed last.
pub fn installed_line(ids: &Vec<String>) -> (r: Result<String, String>)
    ensures
        match r {
            Ok(s) => installed_words(text::texts(ids@)) == Ok::<Seq<char>, Seq<char>>(s@),
            Err(s) => installed_words(text::texts(ids@)) == Err::<Seq<char>, Seq<char>>(s@),
        },
{
    if ids.len() == 1 {
        let mut s: String = String::from_str("虚拟声卡驱动已安装（设备节点 ");
        s.append(ids[0].as_str());
        s.append("）");
        return Ok(s);
    }
    let mut s: String = String::from_str("安装后 vdev-audio 节点数为 ");
    text::push_decimal(&mut s, ids.len() as u64);
    s.append("（应为 1）：");
    if ids.len() == 0 {
        s.append("<none>");
    } else {
        let list: String = text::join(ids, ", ");
        s.append(list.as_str());
    }
    s.append("（残留节点请先 uninstall 清理）");
    Err(s)
}

/// What is said of the nodes that were removed.
pub fn removed_line(removed: usize) -> (s: String)
    ensures
        s@ == if removed == 0 {
            "未找到 vdev 虚拟声卡设备"@
        } else {
            "已移除 "@ + text::decimal(removed as nat) + " 个 vdev 虚拟声卡设备节点"@
        },
{
    if removed == 0 {
        return String::from_str("未找到 vdev 虚拟声卡设备");
    }
    let mut s: String = String::from_str("已移除 ");
    text::push_decimal(&mut s, removed as u64);
    s.append(" 个 vdev 虚拟声卡设备节点");
    s
}

/// The error where nodes are left after the removal.
pub fn left_over_text(left: &Vec<String>) -> (s: String)
    ensures
        s@ == "卸载后仍有 "@ + text::decimal(left@.len()) + " 个 vdev-audio 节点残留："@
            + text::joined(text::texts(left@), ", "@)
            + "（可能被占用，请重试或重启后重试）"@,
{
    let mut s: String = String::from_str("卸载后仍有 ");
    text::push_decimal(&mut s, left.len() as u64);
    s.append(" 个 vdev-audio 节点残留：");
    let list: String = text::join(left, ", ");
    s.append(list.as_str());
    s.append("（可能被占用，请重试或重启后重试）");
    s
}

// ---- listing the nodes ----

/// The identifiers of the nodes whose identifier could be read, in order.
pub open spec fn ids_read(reads: Seq<Option<Vec<u16>>>) -> Seq<Seq<char>>
    decreases reads.len(),
{
    if reads.len() == 0 {
        Seq::empty()
    } else {
        match reads.last() {
            Some(units) => ids_read(reads.drop_last()).push(
                text::decoded_utf16(before_nul(units@)),
            ),
            None => ids_read(reads.drop_last()),
        }
    }
}

/// The identifiers of our nodes; one whose identifier cannot be read is left out.
pub fn vdev_instance_ids(reads: &Vec<Option<Vec<u16>>>) -> (ids: Vec<String>)
    ensures
        text::texts(ids@) == ids_read(reads@),
{
    let mut ids: Vec<String> = Vec::new();
    assert(text::texts(ids@) =~= Seq::<Seq<char>>::empty());
    let mut i: usize = 0;
    while i < reads.len()
        invariant
            i <= reads@.len(),
            text::texts(ids@) == ids_read(reads@.take(i as int)),
        decreases reads@.len() - i,
    {
        assert(reads@.take(i + 1).drop_last() =~= reads@.take(i as int));
        let ghost before = ids@;
        match &reads[i] {
            Some(units) => {
                ids.push(instance_id(units.as_slice()));
                assert(text::texts(ids@) =~= text::texts(before).push(ids@.last()@));
            },
            None => {},
        }
        i = i + 1;
    }
    assert(reads@.take(reads@.len() as int) =~= reads@);
    ids
}

/// The class name in a zero-terminated buffer, with its zero.
pub fn class_name(units: &[u16]) -> (out: Vec<u16>)
    ensures
        out@ == before_nul(units@).push(0),
{
    let mut out: Vec<u16> = Vec::new();
    let mut n: usize = 0;
    while n < units.len() && units[n] != 0
        invariant
            n <= units@.len(),
            out@ == units@.take(n as int),
            forall|k: int| 0 <= k < n ==> units@[k] != 0,
        decreases units@.len() - n,
    {
        out.push(units[n]);
        n = n + 1;
        assert(out@ =~= units@.take(n as int));
    }
    proof {
        lemma_before_nul(units@, n as int);
    }
    out.push(0);
    out
}

} // verus!

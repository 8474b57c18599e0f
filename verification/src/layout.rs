//! How C lays out a structure: every field at the next multiple of its alignment, and the whole
//! rounded up to the largest alignment.
use vstd::prelude::*;

verus! {

/// Where one field stands.
#[derive(Clone, Copy, Debug, PartialEq, Eq, Structural)]
pub struct Field {
    pub offset: usize,
    pub size: usize,
    pub align: usize,
}

/// A structure's fields in order, its size and its alignment.
pub struct Layout {
    pub fields: Vec<Field>,
    pub size: usize,
    pub align: usize,
}

/// The alignments a field can have.
pub open spec fn is_align(align: int) -> bool {
    align == 1 || align == 2 || align == 4 || align == 8
}

/// The first multiple of `align` from `n` on.
pub open spec fn round_up(n: int, align: int) -> int {
    if align == 1 {
        n
    } else if align == 2 {
        (n + 1) / 2 * 2
    } else if align == 4 {
        (n + 3) / 4 * 4
    } else {
        (n + 7) / 8 * 8
    }
}

/// The first offset behind the fields.
pub open spec fn end_of(fields: Seq<Field>) -> int {
    if fields.len() == 0 {
        0
    } else {
        fields.last().offset + fields.last().size
    }
}

/// The field that C places behind `fields`.
pub open spec fn placed(fields: Seq<Field>, size: int, align: int) -> Field {
    Field {
        offset: round_up(end_of(fields), align) as usize,
        size: size as usize,
        align: align as usize,
    }
}

/// Fields in order, without overlap, each at a multiple of its own alignment and none aligned
/// more strictly than `align`.
pub open spec fn well_placed(fields: Seq<Field>, align: int) -> bool {
    &&& is_align(align)
    &&& forall|i: int| 0 <= i < fields.len() ==> is_align((#[trigger] fields[i]).align as int)
    &&& forall|i: int|
        0 <= i < fields.len() ==> (#[trigger] fields[i]).align <= align && round_up(
            fields[i].offset as int,
            fields[i].align as int,
        ) == fields[i].offset
    &&& forall|i: int, j: int|
        0 <= i < j < fields.len() ==> (#[trigger] fields[i]).offset + fields[i].size <= (
        #[trigger] fields[j]).offset
}

/// The larger of two alignments.
pub open spec fn larger(a: int, b: int) -> int {
    if a < b {
        b
    } else {
        a
    }
}

impl Layout {
    /// Not yet rounded up: the size is where the last field ends.
    pub open spec fn growing(&self) -> bool {
        &&& well_placed(self.fields@, self.align as int)
        &&& self.size == end_of(self.fields@)
        &&& self.size <= 0x1_0000
    }

    /// A structure without fields.
    pub fn empty() -> (l: Self)
        ensures
            l.growing(),
            l.fields@ == Seq::<Field>::empty(),
            l.size == 0,
            l.align == 1,
    {
        Layout { fields: Vec::new(), size: 0, align: 1 }
    }

    /// Places a field behind the others.
    pub fn push(&mut self, size: usize, align: usize)
        requires
            old(self).growing(),
            is_align(align as int),
            0 < size,
            round_up(old(self).size as int, align as int) + size <= 0x1_0000,
        ensures
            final(self).growing(),
            final(self).fields@ == old(self).fields@.push(
                placed(old(self).fields@, size as int, align as int),
            ),
            final(self).size == round_up(old(self).size as int, align as int) + size,
            final(self).align == larger(old(self).align as int, align as int),
    {
        let offset: usize = if align == 1 {
            self.size
        } else if align == 2 {
            (self.size + 1) / 2 * 2
        } else if align == 4 {
            (self.size + 3) / 4 * 4
        } else {
            (self.size + 7) / 8 * 8
        };
        let ghost before = self.fields@;
        self.fields.push(Field { offset, size, align });
        self.size = offset + size;
        if self.align < align {
            self.align = align;
        }
        proof {
            let after = self.fields@;
            assert(after =~= before.push(placed(before, size as int, align as int)));
            assert forall|i: int, j: int| 0 <= i < j < after.len() implies (#[trigger] after[i]).offset
                + after[i].size <= (#[trigger] after[j]).offset by {
                if j == before.len() {
                    let last = before.len() - 1;
                    assert(before[i].offset + before[i].size <= before[last].offset
                        + before[last].size);
                }
            }
        }
    }

    /// Rounds the size up to the alignment.
    pub fn finish(self) -> (l: Self)
        requires
            self.growing(),
        ensures
            well_placed(l.fields@, l.align as int),
            l.fields@ == self.fields@,
            l.align == self.align,
            l.size == round_up(self.size as int, self.align as int),
            end_of(l.fields@) <= l.size,
    {
        let size: usize = if self.align == 1 {
            self.size
        } else if self.align == 2 {
            (self.size + 1) / 2 * 2
        } else if self.align == 4 {
            (self.size + 3) / 4 * 4
        } else {
            (self.size + 7) / 8 * 8
        };
        Layout { fields: self.fields, size, align: self.align }
    }

    /// The offset of field number `i`.
    pub fn offset(&self, i: usize) -> (offset: usize)
        requires
            i < self.fields@.len(),
        ensures
            offset == self.fields@[i as int].offset,
    {
        self.fields[i].offset
    }
}

/// The offsets of a list of fields.
pub open spec fn offsets(fields: Seq<Field>) -> Seq<int> {
    Seq::new(fields.len(), |i: int| fields[i].offset as int)
}

/// Rounding up goes to the first place that the alignment allows: a multiple of it, not before the
/// number and less than one alignment behind it. So a field begins at the first place behind the
/// others where it may stand.
pub proof fn law_fields_are_placed_tightly(n: int, align: int, fields: Seq<Field>, size: int)
    requires
        0 <= n,
        is_align(align),
        0 <= end_of(fields) <= 0x1_0000,
        0 <= size <= 0x1_0000,
    ensures
        round_up(n, align) % align == 0,
        n <= round_up(n, align) < n + align,
        ({
            let f = placed(fields, size, align);
            &&& f.size == size
            &&& f.align == align
            &&& f.offset as int % align == 0
            &&& end_of(fields) <= f.offset < end_of(fields) + align
        }),
{
    lemma_round_up(n, align);
    lemma_round_up(end_of(fields), align);
    assert(placed(fields, size, align).offset == round_up(end_of(fields), align));
}

proof fn lemma_round_up(n: int, align: int)
    requires
        is_align(align),
    ensures
        round_up(n, align) % align == 0,
        n <= round_up(n, align) < n + align,
{
    let r = round_up(n, align);
    if align == 1 {
        assert(r % 1 == 0);
    } else if align == 2 {
        assert(r % 2 == 0);
    } else if align == 4 {
        assert(r % 4 == 0);
    } else {
        assert(align == 8);
        assert(r % 8 == 0);
    }
}

} // verus!

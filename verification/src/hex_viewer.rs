//! The state of the hex viewer: the bytes shown, the selected offset, the
//! page shown and the number of columns, and the rules of its buttons.

use vstd::prelude::*;

verus! {

/// The number of bytes on one page.
pub const PAGE_SIZE: usize = 1024;

/// The fewest columns a page can have.
pub const MIN_COLUMNS: usize = 8;
/// The most columns a page can have.
pub const MAX_COLUMNS: usize = 16;

/// The index of the last page for `len` bytes: an empty page when the
/// bytes fill their pages exactly is not counted, but there is always a
/// first page.
pub open spec fn last_page_of(len: nat) -> nat {
    let out = len / (PAGE_SIZE as nat);
    if len % (PAGE_SIZE as nat) == 0 && out > 0 {
        (out - 1) as nat
    } else {
        out
    }
}

/// The character that shows byte `v`: itself when it is printable ASCII,
/// otherwise a dot.
pub open spec fn shown_char(v: u8) -> char {
    if 32 <= v <= 126 {
        v as char
    } else {
        '.'
    }
}

/// The bytes being shown and where the viewer stands in them.
pub struct HexViewer {
    data: Vec<u8>,
    offset: usize,
    page_index: usize,
    number_columns: usize,
}

impl HexViewer {
    /// The bytes shown.
    pub closed spec fn bytes(&self) -> Seq<u8> {
        self.data@
    }

    /// The selected byte position.
    pub closed spec fn spec_offset(&self) -> nat {
        self.offset as nat
    }

    /// The page shown, counted from 0.
    pub closed spec fn spec_page(&self) -> nat {
        self.page_index as nat
    }

    /// The number of bytes on one row.
    pub closed spec fn columns(&self) -> nat {
        self.number_columns as nat
    }

    /// The selected position lies within the bytes or just after them, the
    /// page shown is one that the page selector offers, and the number of
    /// columns is in its range.
    #[verifier::type_invariant]
    spec fn wf(&self) -> bool {
        &&& self.offset <= self.data@.len()
        &&& self.page_index <= self.data@.len() / (PAGE_SIZE as nat)
        &&& MIN_COLUMNS <= self.number_columns <= MAX_COLUMNS
    }

    /// A viewer of `data` on its first byte, with eight columns.
    pub fn new(data: Vec<u8>) -> (h: HexViewer)
        ensures
            h.bytes() == data@,
            h.spec_offset() == 0,
            h.spec_page() == 0,
            h.columns() == 8,
    {
        HexViewer { data, offset: 0, page_index: 0, number_columns: 8 }
    }

    /// The bytes shown.
    pub fn data(&self) -> (d: &Vec<u8>)
        ensures
            d@ == self.bytes(),
    {
        proof {
            use_type_invariant(&*self);
        }
        &self.data
    }

    /// The selected byte position.
    pub fn offset(&self) -> (o: usize)
        ensures
            o == self.spec_offset(),
            o <= self.bytes().len(),
    {
        proof {
            use_type_invariant(&*self);
        }
        self.offset
    }

    /// The page shown.
    pub fn page_index(&self) -> (p: usize)
        ensures
            p == self.spec_page(),
            p <= self.bytes().len() / (PAGE_SIZE as nat),
    {
        proof {
            use_type_invariant(&*self);
        }
        self.page_index
    }

    /// The number of bytes on one row.
    pub fn number_columns(&self) -> (n: usize)
        ensures
            n == self.columns(),
            MIN_COLUMNS <= n <= MAX_COLUMNS,
    {
        proof {
            use_type_invariant(&*self);
        }
        self.number_columns
    }

    /// The index of the last page.
    pub fn page_index_max(&self) -> (m: usize)
        ensures
            m == last_page_of(self.bytes().len()),
    {
        proof {
            use_type_invariant(&*self);
        }
        let out = self.data.len() / PAGE_SIZE;
        if self.data.len() % PAGE_SIZE == 0 && out > 0 {
            out - 1
        } else {
            out
        }
    }

    /// The number of full rows of the page shown: a whole page on any page
    /// before the last, else the full rows of what is left.
    pub fn page_rows(&self) -> (r: usize)
        ensures
            r == (if self.spec_page() < last_page_of(self.bytes().len()) {
                PAGE_SIZE as nat / self.columns()
            } else {
                (self.bytes().len() % (PAGE_SIZE as nat)) / self.columns()
            }),
    {
        proof {
            use_type_invariant(&*self);
        }
        if self.page_index < self.page_index_max() {
            PAGE_SIZE / self.number_columns
        } else {
            (self.data.len() % PAGE_SIZE) / self.number_columns
        }
    }

    /// The columns selector, which keeps the number in its range.
    pub fn set_number_columns(&mut self, n: usize)
        ensures
            final(self).columns() == (if n < MIN_COLUMNS { MIN_COLUMNS } else if n > MAX_COLUMNS { MAX_COLUMNS } else { n }),
            final(self).bytes() == old(self).bytes(),
            final(self).spec_offset() == old(self).spec_offset(),
            final(self).spec_page() == old(self).spec_page(),
    {
        proof {
            use_type_invariant(&*self);
        }
        self.number_columns = if n < MIN_COLUMNS {
            MIN_COLUMNS
        } else if n > MAX_COLUMNS {
            MAX_COLUMNS
        } else {
            n
        };
    }

    /// The offset selector, or a click on a byte: the position is kept
    /// within the bytes or just after them.
    pub fn set_offset(&mut self, o: usize)
        ensures
            final(self).spec_offset() == (if o > old(self).bytes().len() { old(self).bytes().len() } else { o as nat }),
            final(self).bytes() == old(self).bytes(),
            final(self).spec_page() == old(self).spec_page(),
            final(self).columns() == old(self).columns(),
    {
        proof {
            use_type_invariant(&*self);
        }
        self.offset = if o > self.data.len() { self.data.len() } else { o };
    }

    /// The page selector, which offers the pages from 0 to the number of
    /// whole pages.
    pub fn set_page_index(&mut self, p: usize)
        ensures
            final(self).spec_page() == (if p > old(self).bytes().len() / (PAGE_SIZE as nat) {
                old(self).bytes().len() / (PAGE_SIZE as nat)
            } else {
                p as nat
            }),
            final(self).bytes() == old(self).bytes(),
            final(self).spec_offset() == old(self).spec_offset(),
            final(self).columns() == old(self).columns(),
    {
        proof {
            use_type_invariant(&*self);
        }
        let m = self.data.len() / PAGE_SIZE;
        self.page_index = if p > m { m } else { p };
    }

    /// The "<<" button: back to the first page, the offset moving back by
    /// as many pages.
    pub fn first_page(&mut self)
        requires
            old(self).spec_offset() >= PAGE_SIZE * old(self).spec_page(),
        ensures
            final(self).spec_offset() == old(self).spec_offset() - PAGE_SIZE * old(self).spec_page(),
            final(self).spec_page() == 0,
            final(self).bytes() == old(self).bytes(),
            final(self).columns() == old(self).columns(),
    {
        proof {
            use_type_invariant(&*self);
        }
        assert(PAGE_SIZE * self.page_index <= self.offset);
        self.offset = self.offset - PAGE_SIZE * self.page_index;
        self.page_index = 0;
    }

    /// The "<" button: one page back, with the offset, unless on the first
    /// page.
    pub fn prev_page(&mut self)
        requires
            old(self).spec_page() > 0 ==> old(self).spec_offset() >= PAGE_SIZE,
        ensures
            old(self).spec_page() > 0 ==> {
                &&& final(self).spec_page() == old(self).spec_page() - 1
                &&& final(self).spec_offset() == old(self).spec_offset() - PAGE_SIZE
            },
            old(self).spec_page() == 0 ==> *final(self) == *old(self),
            final(self).bytes() == old(self).bytes(),
            final(self).columns() == old(self).columns(),
    {
        proof {
            use_type_invariant(&*self);
        }
        if self.page_index > 0 {
            self.page_index = self.page_index - 1;
            self.offset = self.offset - PAGE_SIZE;
        }
    }

    /// The ">" button: one page on, with the offset, which stays within
    /// the bytes or just after them, unless on the last page offered.
    pub fn next_page(&mut self)
        ensures
            old(self).spec_page() < old(self).bytes().len() / (PAGE_SIZE as nat) ==> {
                &&& final(self).spec_page() == old(self).spec_page() + 1
                &&& final(self).spec_offset() == (if old(self).spec_offset() + PAGE_SIZE > old(self).bytes().len() {
                    old(self).bytes().len() as int
                } else {
                    old(self).spec_offset() + PAGE_SIZE
                })
            },
            old(self).spec_page() >= old(self).bytes().len() / (PAGE_SIZE as nat) ==> *final(self) == *old(self),
            final(self).bytes() == old(self).bytes(),
            final(self).columns() == old(self).columns(),
    {
        proof {
            use_type_invariant(&*self);
        }
        let page_index_max = self.data.len() / PAGE_SIZE;
        if self.page_index < page_index_max {
            self.page_index = self.page_index + 1;
            self.offset = if self.offset > self.data.len() - PAGE_SIZE {
                self.data.len()
            } else {
                self.offset + PAGE_SIZE
            };
        }
    }

    /// The ">>" button: to the last page offered, the offset moving on by
    /// as many pages, but never past the last byte.
    pub fn last_page(&mut self)
        requires
            old(self).bytes().len() > 0,
        ensures
            final(self).spec_page() == old(self).bytes().len() / (PAGE_SIZE as nat),
            ({
                let moved = old(self).spec_offset() + (old(self).bytes().len() / (PAGE_SIZE as nat) - old(self).spec_page()) * PAGE_SIZE;
                final(self).spec_offset() == (if moved >= old(self).bytes().len() { old(self).bytes().len() - 1 } else { moved })
            }),
            final(self).bytes() == old(self).bytes(),
            final(self).columns() == old(self).columns(),
    {
        proof {
            use_type_invariant(&*self);
        }
        let page_index_max = self.data.len() / PAGE_SIZE;
        let steps = page_index_max - self.page_index;
        assert(steps * PAGE_SIZE <= self.data.len()) by (nonlinear_arith)
            requires
                steps <= page_index_max,
                page_index_max == self.data.len() / PAGE_SIZE,
        {
        }
        let moved = steps * PAGE_SIZE;
        self.page_index = page_index_max;
        self.offset = if self.offset >= self.data.len() - moved {
            self.data.len() - 1
        } else {
            self.offset + moved
        };
    }

    /// The position of the byte shown at `row` and `column` of the page.
    pub open spec fn cell_index(&self, row: nat, column: nat) -> nat {
        self.spec_page() * (PAGE_SIZE as nat) + row * self.columns() + column
    }

    /// The byte shown at `row` and `column` of the page, if the bytes
    /// reach that far.
    pub fn cell(&self, row: usize, column: usize) -> (r: Option<u8>)
        requires
            row <= PAGE_SIZE,
            column < self.columns(),
            self.bytes().len() + PAGE_SIZE * (MAX_COLUMNS + 1) <= usize::MAX,
        ensures
            match r {
                Some(v) => self.cell_index(row as nat, column as nat) < self.bytes().len()
                    && v == self.bytes()[self.cell_index(row as nat, column as nat) as int],
                None => self.cell_index(row as nat, column as nat) >= self.bytes().len(),
            },
    {
        proof {
            use_type_invariant(&*self);
        }
        let index = self.row_start(row) + column;
        if index < self.data.len() {
            Some(self.data[index])
        } else {
            None
        }
    }

    /// The position of the first byte of `row` of the page, which labels
    /// the row.
    pub fn row_start(&self, row: usize) -> (i: usize)
        requires
            row <= PAGE_SIZE,
            self.bytes().len() + PAGE_SIZE * (MAX_COLUMNS + 1) <= usize::MAX,
        ensures
            i == self.cell_index(row as nat, 0),
            i <= self.bytes().len() + PAGE_SIZE * MAX_COLUMNS,
    {
        proof {
            use_type_invariant(&*self);
        }
        assert(self.page_index * PAGE_SIZE <= self.data.len()) by (nonlinear_arith)
            requires
                self.page_index <= self.data.len() / PAGE_SIZE,
        {
        }
        assert(row * self.number_columns <= PAGE_SIZE * MAX_COLUMNS) by (nonlinear_arith)
            requires
                row <= PAGE_SIZE,
                self.number_columns <= MAX_COLUMNS,
        {
        }
        self.page_index * PAGE_SIZE + row * self.number_columns
    }
}

impl Default for HexViewer {
    fn default() -> (h: HexViewer)
        ensures
            h.bytes() == Seq::<u8>::empty(),
            h.spec_offset() == 0,
            h.spec_page() == 0,
            h.columns() == 8,
    {
        HexViewer::new(Vec::new())
    }
}

/// The character that shows a byte in the text column.
pub fn u8_to_char(v: u8) -> (c: char)
    ensures
        c == shown_char(v),
{
    if 32 <= v && v <= 126 {
        v as char
    } else {
        '.'
    }
}

} // verus!

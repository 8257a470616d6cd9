//! See [`CStrTable`].

use vstd::prelude::*;

verus! {

/// True when `s` holds no null byte.
pub open spec fn nul_free(s: Seq<u8>) -> bool {
    forall|i: int| 0 <= i <= s.len() - 1 ==> s[i] != 0
}

/// Index of the first null byte of `blob` at or after `off`, or the length
/// of `blob` when no null follows.
pub open spec fn first_nul(blob: Seq<u8>, off: int) -> int
    recommends
        0 <= off,
    decreases blob.len() - off,
    when 0 <= off
{
    if off >= blob.len() {
        off
    } else if blob[off] == 0 {
        off
    } else {
        first_nul(blob, off + 1)
    }
}

/// The bytes of `blob` from `off` up to the first null byte or the end of
/// the blob, whichever comes first.
pub open spec fn entry_at(blob: Seq<u8>, off: int) -> Seq<u8>
    recommends
        0 <= off <= blob.len(),
{
    blob.subrange(off, first_nul(blob, off))
}

/// Offset of the first table entry at or after `off` that equals `name`,
/// scanning entry by entry as [`Iter`] does.
pub open spec fn find_dup(blob: Seq<u8>, off: int, name: Seq<u8>) -> Option<int>
    recommends
        0 <= off,
    decreases blob.len() + 1 - off,
    when 0 <= off
    via find_dup_decreases
{
    if off >= blob.len() {
        None
    } else if entry_at(blob, off) == name {
        Some(off)
    } else {
        find_dup(blob, first_nul(blob, off) + 1, name)
    }
}

#[via_fn]
proof fn find_dup_decreases(blob: Seq<u8>, off: int, name: Seq<u8>) {
    lemma_first_nul_bounds(blob, off);
}

/// `first_nul` stays between its starting offset and the blob length.
pub proof fn lemma_first_nul_bounds(blob: Seq<u8>, off: int)
    requires
        0 <= off,
    ensures
        off <= first_nul(blob, off),
        off <= blob.len() ==> first_nul(blob, off) <= blob.len(),
        first_nul(blob, off) < blob.len() ==> blob[first_nul(blob, off)] == 0,
        forall|i: int| off <= i < first_nul(blob, off) ==> blob[i] != 0,
    decreases blob.len() - off,
{
    if off < blob.len() && blob[off] != 0 {
        lemma_first_nul_bounds(blob, off + 1);
    }
}

/// A scan that saw no null before `k`, and a null or the end at `k`,
/// pins `first_nul` down to `k`.
pub proof fn lemma_first_nul_from_scan(blob: Seq<u8>, off: int, k: int)
    requires
        0 <= off <= k <= blob.len(),
        forall|i: int| off <= i < k ==> blob[i] != 0,
        k < blob.len() ==> blob[k] == 0,
    ensures
        first_nul(blob, off) == k,
    decreases k - off,
{
    if off < k {
        lemma_first_nul_from_scan(blob, off + 1, k);
    }
}

/// True when `blob` is empty or ends on a null byte, as every blob built
/// only by [`CStrTable::insert`] does.
pub open spec fn terminated(blob: Seq<u8>) -> bool {
    blob.len() > 0 ==> blob[blob.len() - 1] == 0
}

/// The blob and the returned offset after one insert: the offset of the
/// first identical entry if one exists, else the old length, with the name
/// and a null terminator appended.
pub open spec fn spec_insert(blob: Seq<u8>, name: Seq<u8>) -> (Seq<u8>, int) {
    match find_dup(blob, 0, name) {
        Some(o) => (blob, o),
        None => (blob + name + seq![0u8], blob.len() as int),
    }
}

/// True when `name` sits in `blob` at `off`, terminated by a null byte.
pub open spec fn has_entry(blob: Seq<u8>, off: int, name: Seq<u8>) -> bool {
    &&& nul_free(name)
    &&& 0 <= off
    &&& off + name.len() < blob.len()
    &&& blob.subrange(off, off + name.len()) == name
    &&& blob[off + name.len()] == 0
}

/// A null-terminated entry reads back as exactly its own bytes.
pub proof fn lemma_entry_at_of_has_entry(blob: Seq<u8>, off: int, name: Seq<u8>)
    requires
        has_entry(blob, off, name),
    ensures
        entry_at(blob, off) == name,
{
    assert(forall|i: int| off <= i < off + name.len() ==> blob[i] == name[i - off]);
    lemma_first_nul_from_scan(blob, off, off + name.len());
    assert(entry_at(blob, off) =~= name);
}

/// An entry terminated inside `blob` is untouched by bytes appended after it.
pub proof fn lemma_has_entry_append(blob: Seq<u8>, ext: Seq<u8>, off: int, name: Seq<u8>)
    requires
        has_entry(blob, off, name),
    ensures
        has_entry(blob + ext, off, name),
{
    assert((blob + ext).subrange(off, off + name.len()) =~= blob.subrange(off, off + name.len()));
}

/// An offset that `find_dup` hands back names a null-terminated copy of
/// the name it looked for.
pub proof fn lemma_find_dup_has_entry(blob: Seq<u8>, off: int, name: Seq<u8>, o: int)
    requires
        terminated(blob),
        nul_free(name),
        0 <= off,
        find_dup(blob, off, name) == Some(o),
    ensures
        has_entry(blob, o, name),
    decreases blob.len() + 1 - off,
{
    let fnul = first_nul(blob, off);
    lemma_first_nul_bounds(blob, off);
    if entry_at(blob, off) == name {
        assert(name.len() == fnul - off);
        if fnul == blob.len() {
            assert(blob[blob.len() - 1] == 0);
            assert(fnul > off ==> blob[fnul - 1] != 0);
            assert(false);
        }
        assert(blob.subrange(off, off + name.len()) == entry_at(blob, off));
    } else {
        lemma_find_dup_has_entry(blob, fnul + 1, name, o);
    }
}

/// When a name is absent, appending it with its terminator makes it the
/// entry that the next search finds, at the old end of the blob.
pub proof fn lemma_find_dup_append(blob: Seq<u8>, off: int, name: Seq<u8>)
    requires
        terminated(blob),
        nul_free(name),
        0 <= off <= blob.len(),
        find_dup(blob, off, name) is None,
    ensures
        find_dup(blob + name + seq![0u8], off, name) == Some(blob.len() as int),
    decreases blob.len() + 1 - off,
{
    let blob2 = blob + name + seq![0u8];
    if off == blob.len() {
        assert(blob2.subrange(off, off + name.len()) =~= name);
        assert(blob2[off + name.len()] == 0);
        assert(has_entry(blob2, off, name));
        lemma_entry_at_of_has_entry(blob2, off, name);
    } else {
        let fnul = first_nul(blob, off);
        lemma_first_nul_bounds(blob, off);
        if fnul == blob.len() {
            assert(blob[blob.len() - 1] == 0);
            assert(fnul > off ==> blob[fnul - 1] != 0);
            assert(false);
        }
        lemma_first_nul_from_scan(blob2, off, fnul);
        assert(entry_at(blob2, off) =~= entry_at(blob, off));
        lemma_find_dup_append(blob, fnul + 1, name);
    }
}

/// Inserting the same byte string twice hands back the same offset both
/// times, and the second insert leaves the blob as it was.
pub proof fn lemma_insert_dedup(blob: Seq<u8>, name: Seq<u8>)
    requires
        terminated(blob),
        nul_free(name),
    ensures
        spec_insert(spec_insert(blob, name).0, name).0 == spec_insert(blob, name).0,
        spec_insert(spec_insert(blob, name).0, name).1 == spec_insert(blob, name).1,
{
    match find_dup(blob, 0, name) {
        Some(o) => {},
        None => {
            lemma_find_dup_append(blob, 0, name);
        }
    }
}

/// The offset an insert hands back names a null-terminated copy of the
/// inserted bytes, so a later lookup at that offset reads them back.
pub proof fn lemma_insert_lookup(blob: Seq<u8>, name: Seq<u8>)
    requires
        terminated(blob),
        nul_free(name),
    ensures
        has_entry(spec_insert(blob, name).0, spec_insert(blob, name).1, name),
        entry_at(spec_insert(blob, name).0, spec_insert(blob, name).1) == name,
{
    let (blob2, o) = spec_insert(blob, name);
    match find_dup(blob, 0, name) {
        Some(i) => {
            lemma_find_dup_has_entry(blob, 0, name, i);
        }
        None => {
            assert(blob2.subrange(o, o + name.len()) =~= name);
            assert(blob2[o + name.len()] == 0);
        }
    }
    lemma_entry_at_of_has_entry(blob2, o, name);
}

/// Structure that holds an owned binary blob of C strings.
pub struct CStrTable {
    blob: Vec<u8>,
}

impl View for CStrTable {
    type V = Seq<u8>;

    closed spec fn view(&self) -> Seq<u8> {
        self.blob@
    }
}

/// Iterator over C strings in a [`CStrTable`].
pub struct Iter<'a> {
    table: &'a CStrTable,
    offset: usize,
}

/// Index of the first null byte of `blob` at or after `from`, or the blob
/// length when no null follows.
fn scan_nul(blob: &Vec<u8>, from: usize) -> (r: usize)
    requires
        from <= blob@.len(),
    ensures
        r == first_nul(blob@, from as int),
{
    let mut nul = from;
    while nul < blob.len() && blob[nul] != 0
        invariant
            from <= nul <= blob@.len(),
            forall|i: int| from <= i < nul ==> blob@[i] != 0,
        decreases blob@.len() - nul,
    {
        nul = nul + 1;
    }
    proof {
        lemma_first_nul_from_scan(blob@, from as int, nul as int);
    }
    nul
}

/// True when the two byte slices hold the same bytes.
pub(crate) fn bytes_eq(a: &[u8], b: &[u8]) -> (r: bool)
    ensures
        r == (a@ == b@),
{
    if a.len() != b.len() {
        return false;
    }
    let mut i: usize = 0;
    while i < a.len()
        invariant
            0 <= i <= a@.len(),
            a@.len() == b@.len(),
            forall|j: int| 0 <= j < i ==> a@[j] == b@[j],
        decreases a@.len() - i,
    {
        if a[i] != b[i] {
            return false;
        }
        i = i + 1;
    }
    proof {
        assert(a@ =~= b@);
    }
    true
}

impl<'a> Iter<'a> {
    /// The table this iterator walks.
    pub closed spec fn table_view(&self) -> Seq<u8> {
        self.table@
    }

    /// The offset the next entry is read from.
    pub closed spec fn spec_offset(&self) -> int {
        self.offset as int
    }

    /// Yield the next entry and the offset it starts at, or nothing once
    /// the scan has passed the end of the blob.
    pub fn next(&mut self) -> (r: Option<(usize, &'a [u8])>)
        ensures
            final(self).table_view() == old(self).table_view(),
            match r {
                Some((off, s)) => {
                    &&& off == old(self).spec_offset()
                    &&& off < old(self).table_view().len()
                    &&& s@ == entry_at(old(self).table_view(), off as int)
                    &&& final(self).spec_offset() == if first_nul(old(self).table_view(), off as int) + 1
                        <= old(self).table_view().len() {
                        first_nul(old(self).table_view(), off as int) + 1
                    } else {
                        old(self).table_view().len() as int
                    }
                },
                None => {
                    &&& old(self).spec_offset() >= old(self).table_view().len()
                    &&& final(self).spec_offset() == old(self).spec_offset()
                },
            },
    {
        let begin = self.offset;
        let blob_len = self.table.blob.len();
        if begin < blob_len {
            let nul = scan_nul(&self.table.blob, begin);
            self.offset = if nul < blob_len {
                nul + 1
            } else {
                blob_len
            };
            proof {
                lemma_first_nul_bounds(self.table@, begin as int);
            }
            let piece = self.table.blob.as_slice();
            let entry = &piece[begin..nul];
            proof {
                assert(entry@ =~= entry_at(self.table@, begin as int));
            }
            Some((begin, entry))
        } else {
            None
        }
    }
}

impl CStrTable {
    /// A table built only by inserts always ends on a null terminator.
    pub open spec fn wf(&self) -> bool {
        terminated(self@)
    }

    /// Create an empty [`CStrTable`].
    pub fn new() -> (r: Self)
        ensures
            r@ == Seq::<u8>::empty(),
            r.wf(),
    {
        CStrTable { blob: Vec::new() }
    }

    /// Create a new [`CStrTable`] from a blob of C strings.
    pub fn from_blob(blob: Vec<u8>) -> (r: Self)
        ensures
            r@ == blob@,
    {
        CStrTable { blob }
    }

    /// Return a reference to this table's C string blob.
    pub fn blob(&self) -> (r: &Vec<u8>)
        ensures
            r@ == self@,
    {
        &self.blob
    }

    /// Append this table's bytes to `out`.
    pub fn write_to(&self, out: &mut Vec<u8>)
        ensures
            final(out)@ == old(out)@ + self@,
    {
        let mut i: usize = 0;
        while i < self.blob.len()
            invariant
                0 <= i <= self@.len(),
                out@ == old(out)@ + self@.subrange(0, i as int),
            decreases self@.len() - i,
        {
            out.push(self.blob[i]);
            proof {
                assert(old(out)@ + self@.subrange(0, i as int) + seq![self@[i as int]]
                    =~= old(out)@ + self@.subrange(0, i + 1));
            }
            i = i + 1;
        }
        proof {
            assert(old(out)@ + self@.subrange(0, self@.len() as int) =~= old(out)@ + self@);
        }
    }

    /// Return the length of this table's C string blob.
    pub fn len(&self) -> (r: usize)
        ensures
            r == self@.len(),
    {
        self.blob.len()
    }

    /// Return `true` if this table is empty.
    pub fn is_empty(&self) -> (r: bool)
        ensures
            r == (self@.len() == 0),
    {
        self.blob.len() == 0
    }

    /// Create an iterator over all C strings in this table with the
    /// associated offset to each one.
    pub fn iter(&self) -> (r: Iter<'_>)
        ensures
            r.table_view() == self@,
            r.spec_offset() == 0,
    {
        Iter { table: self, offset: 0 }
    }

    /// Try to read the entry at an offset into this table: its bytes up to
    /// the first null byte or the end of the blob.
    pub fn get_c_string(&self, offset: usize) -> (r: Option<Vec<u8>>)
        ensures
            match r {
                Some(v) => offset < self@.len() && v@ == entry_at(self@, offset as int),
                None => offset >= self@.len(),
            },
    {
        if offset < self.blob.len() {
            let nul = scan_nul(&self.blob, offset);
            let mut buffer: Vec<u8> = Vec::new();
            let mut i: usize = offset;
            proof {
                lemma_first_nul_bounds(self@, offset as int);
            }
            while i < nul
                invariant
                    offset <= i <= nul,
                    nul <= self@.len(),
                    buffer@ == self@.subrange(offset as int, i as int),
                decreases nul - i,
            {
                buffer.push(self.blob[i]);
                proof {
                    assert(self@.subrange(offset as int, i as int) + seq![self@[i as int]]
                        =~= self@.subrange(offset as int, i + 1));
                }
                i = i + 1;
            }
            Some(buffer)
        } else {
            None
        }
    }

    /// Put a C string into this table: return the offset of an existing
    /// identical entry, or append the bytes plus a null terminator.
    pub fn insert(&mut self, name: &[u8]) -> (r: usize)
        requires
            nul_free(name@),
        ensures
            final(self)@ == spec_insert(old(self)@, name@).0,
            r == spec_insert(old(self)@, name@).1,
            old(self).wf() ==> final(self).wf(),
    {
        let ghost blob0 = self@;
        let mut off: usize = 0;
        let mut found: Option<usize> = None;
        while found.is_none() && off < self.blob.len()
            invariant
                self@ == blob0,
                0 <= off <= blob0.len(),
                match found {
                    Some(o) => find_dup(blob0, 0, name@) == Some(o as int),
                    None => find_dup(blob0, 0, name@) == find_dup(blob0, off as int, name@),
                },
            decreases (if found is None { 1int } else { 0int }), blob0.len() - off,
        {
            let nul = scan_nul(&self.blob, off);
            proof {
                lemma_first_nul_bounds(blob0, off as int);
            }
            let entry = &self.blob.as_slice()[off..nul];
            proof {
                assert(entry@ =~= entry_at(blob0, off as int));
            }
            if bytes_eq(entry, name) {
                proof {
                    assert(find_dup(blob0, off as int, name@) == Some(off as int));
                }
                found = Some(off);
            } else {
                proof {
                    assert(find_dup(blob0, off as int, name@)
                        == find_dup(blob0, first_nul(blob0, off as int) + 1, name@));
                    if nul == blob0.len() {
                        assert(find_dup(blob0, nul as int, name@) is None);
                        assert(find_dup(blob0, nul + 1, name@) is None);
                    }
                }
                off = if nul < self.blob.len() {
                    nul + 1
                } else {
                    self.blob.len()
                };
            }
        }
        match found {
            Some(o) => o,
            None => {
                let offset = self.blob.len();
                let mut i: usize = 0;
                while i < name.len()
                    invariant
                        0 <= i <= name@.len(),
                        self@ == blob0 + name@.subrange(0, i as int),
                    decreases name@.len() - i,
                {
                    self.blob.push(name[i]);
                    proof {
                        assert(blob0 + name@.subrange(0, i as int) + seq![name@[i as int]]
                            =~= blob0 + name@.subrange(0, i + 1));
                    }
                    i = i + 1;
                }
                self.blob.push(0);
                proof {
                    assert(blob0 + name@.subrange(0, name@.len() as int) + seq![0u8]
                        =~= blob0 + name@ + seq![0u8]);
                }
                offset
            }
        }
    }
}

} // verus!

//! Reading and writing SMX container files: named opaque byte sections
//! packed behind a fixed header, a section-info table and a deduplicated
//! string table, with an optional zlib pass over the payload and a byte
//! order that is inferred again on read.

use vstd::prelude::*;
use vstd::pervasive::VecAdditionalExecFns;

pub mod endian;
pub mod smx_table;
pub mod smx;
pub mod zlib;
pub mod vm_types;
pub mod opcodes;

pub use endian::Endianness;
pub use opcodes::Instruction;
pub use zlib::CompressionLevel;

use crate::smx_table::nul_free;

verus! {

/// Helper structure that represents an SMX file: an owned list of
/// `(name, data)` sections.
///
/// This structure has the [`Smx::read_from`] and [`Smx::write_to`]
/// functions for reading and writing SMX files respectively.
#[derive(Debug, Clone)]
pub struct Smx {
    /// The sections, in insertion order.
    pub sections: Vec<(Vec<u8>, Vec<u8>)>,
}

impl View for Smx {
    type V = Seq<(Seq<u8>, Seq<u8>)>;

    open spec fn view(&self) -> Seq<(Seq<u8>, Seq<u8>)> {
        smx::sections_view(self.sections@)
    }
}

impl Default for Smx {
    /// An empty file.
    fn default() -> (r: Self)
        ensures
            r@ == Seq::<(Seq<u8>, Seq<u8>)>::empty(),
    {
        Smx::new()
    }
}

impl PartialEq for Smx {
    /// Two files are equal when they hold the same sections in the same
    /// order.
    fn eq(&self, other: &Self) -> (r: bool)
        ensures
            r == (self@ == other@),
    {
        if self.sections.len() != other.sections.len() {
            proof {
                assert(self@.len() != other@.len());
            }
            return false;
        }
        let n = self.sections.len();
        let mut i: usize = 0;
        while i < n
            invariant
                n == self.sections@.len(),
                n == other.sections@.len(),
                0 <= i <= n,
                forall|j: int| 0 <= j < i ==> self@[j] == other@[j],
            decreases n - i,
        {
            proof {
                let k = i as int;
                assert(self@[k] == (self.sections@[k].0@, self.sections@[k].1@));
                assert(other@[k] == (other.sections@[k].0@, other.sections@[k].1@));
            }
            if !crate::smx_table::bytes_eq(
                self.sections[i].0.as_slice(),
                other.sections[i].0.as_slice(),
            ) {
                proof {
                    assert(self@[i as int].0 != other@[i as int].0);
                }
                return false;
            }
            if !crate::smx_table::bytes_eq(
                self.sections[i].1.as_slice(),
                other.sections[i].1.as_slice(),
            ) {
                proof {
                    assert(self@[i as int].1 != other@[i as int].1);
                }
                return false;
            }
            i = i + 1;
        }
        proof {
            assert(self@ =~= other@);
        }
        true
    }
}

impl vstd::std_specs::cmp::PartialEqSpecImpl for Smx {
    open spec fn obeys_eq_spec() -> bool {
        true
    }

    open spec fn eq_spec(&self, other: &Self) -> bool {
        self@ == other@
    }
}

impl Eq for Smx {

}

impl Smx {
    /// No two sections share a name, and no name holds a null byte.
    pub open spec fn wf(&self) -> bool {
        smx::names_ok(self@) && smx::names_unique(self@)
    }

    /// Create an empty [`Smx`].
    pub fn new() -> (r: Self)
        ensures
            r@ == Seq::<(Seq<u8>, Seq<u8>)>::empty(),
            r.wf(),
    {
        let r = Smx { sections: Vec::new() };
        proof {
            assert(r@ =~= Seq::<(Seq<u8>, Seq<u8>)>::empty());
        }
        r
    }

    /// Create an [`Smx`] with a specified list of sections.
    ///
    /// The list is taken as given: it is well formed only when its names
    /// are pairwise distinct and free of null bytes, which the write path
    /// demands of its caller.
    pub fn with_sections(sections: Vec<(Vec<u8>, Vec<u8>)>) -> (r: Self)
        ensures
            r@ == smx::sections_view(sections@),
    {
        Smx { sections }
    }

    /// Write a named section, with data read from an SMX file: replace the
    /// data of the section already holding `name`, or append a new one.  A
    /// later write under a name wins over an earlier one.
    pub fn write_section(&mut self, name: Vec<u8>, data: Vec<u8>)
        ensures
            final(self)@ == smx::spec_upsert(old(self)@, name@, data@),
            old(self).wf() && nul_free(name@) ==> final(self).wf(),
    {
        proof {
            smx::lemma_find_name(self@, name@);
            if old(self).wf() && nul_free(name@) {
                smx::lemma_upsert_wf(self@, name@, data@);
            }
        }
        let n = self.sections.len();
        let mut i: usize = 0;
        while i < n
            invariant
                n == self.sections@.len(),
                self@ == old(self)@,
                self.sections == old(self).sections,
                0 <= i <= n,
                forall|j: int| 0 <= j < i ==> self@[j].0 != name@,
            decreases n - i,
        {
            if crate::smx_table::bytes_eq(self.sections[i].0.as_slice(), name.as_slice()) {
                proof {
                    assert(self@[i as int].0 == self.sections@[i as int].0@);
                    smx::lemma_find_name(self@, name@);
                    assert(smx::find_name(self@, name@) == i as int);
                }
                self.sections.set(i, (name, data));
                proof {
                    assert(final(self)@ =~= smx::spec_upsert(old(self)@, name@, data@));
                }
                return ;
            }
            proof {
                assert(self@[i as int].0 == self.sections@[i as int].0@);
            }
            i = i + 1;
        }
        proof {
            smx::lemma_find_name(self@, name@);
            assert(smx::find_name(self@, name@) == self@.len());
        }
        self.sections.push((name, data));
        proof {
            assert(final(self)@ =~= smx::spec_upsert(old(self)@, name@, data@));
        }
    }

    /// Write this SMX file to a byte vector, in the given byte order and
    /// with the given [`CompressionLevel`].
    ///
    /// Returns the file bytes, or nothing when the stored payload that the
    /// compressor produced would push the total stored size past what the
    /// 4-byte disk-size header field can hold.
    pub fn write_to(&self, e: Endianness, compression_level: CompressionLevel) -> (r: Option<
        Vec<u8>,
    >)
        requires
            self.wf(),
            self@.len() <= 255,
            smx::image_size(self@) <= u32::MAX,
        ensures
            match r {
                Some(v) => {
                    &&& v@ == smx::spec_write(self@, e, compression_level)
                    &&& smx::spec_read(v@) == Ok::<_, smx::SmxError>((self@, e))
                    &&& smx::spec_delivered(v@) == self@
                },
                None => {
                    &&& compression_level != CompressionLevel::NoCompression
                    &&& smx::payload_offset(self@) + crate::zlib::zlib_deflate(
                        smx::payload(self@, self@.len() as int),
                        compression_level.spec_level(),
                    ).len() > u32::MAX
                },
            },
    {
        smx::write_to(e, compression_level, self.sections.as_slice())
    }

    /// Read an SMX file from its bytes, inferring its [`Endianness`] from
    /// the magic number.
    pub fn read_from(bytes: &[u8]) -> (r: Result<(Self, Endianness), crate::smx::SmxError>)
        ensures
            match r {
                Ok((s, e)) => {
                    &&& smx::spec_read(bytes@) == Ok::<_, crate::smx::SmxError>(
                        (smx::spec_delivered(bytes@), e),
                    )
                    &&& s@ == smx::spec_upsert_all(Seq::empty(), smx::spec_delivered(bytes@))
                    &&& s.wf()
                },
                Err(er) => smx::spec_read(bytes@) == Err::<
                    (Seq<(Seq<u8>, Seq<u8>)>, Endianness),
                    _,
                >(er),
            },
    {
        let mut smx = Self::new();
        match smx::read_from(bytes, &mut smx) {
            Ok(e) => Ok((smx, e)),
            Err(er) => Err(er),
        }
    }
}

} // verus!

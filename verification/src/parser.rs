//! The decode pipeline and its full mathematical specification.
//!
//! The spec functions at the top of this module define, over a plain byte
//! sequence, exactly what a decode returns: [`spec_parse`] is the reference
//! decoder, built from [`spec_header`], [`spec_types_section`] and
//! [`spec_body`]. The executable [`Parser`] is verified to agree with
//! [`spec_parse`] on every input, success and failure alike.

use vstd::prelude::*;

use crate::constants::EOF_MAGIC_0;
use crate::constants::EOF_MAGIC_1;
use crate::constants::EOF_VERSION;
use crate::constants::HEADER_SIZE;
use crate::constants::MAX_CODE_SECTIONS;
use crate::constants::TYPE_RECORD_SIZE;
use crate::error::Error;
use crate::Body;
use crate::BodyModel;
use crate::ContainerModel;
use crate::EOFContainer;
use crate::EOFHeader;
use crate::HeaderModel;
use crate::TypeMetadata;
use crate::TypesSection;

verus! {

/// The value of a two-byte little-endian integer with bytes `lo`, `hi`.
pub open spec fn spec_le16(lo: u8, hi: u8) -> u16 {
    (lo + hi * 256) as u16
}

/// Reference decode of the fixed-size header from the front of `s`.
///
/// Field order, validation order and error kinds follow the wire format: a
/// short read anywhere surfaces as `IoError`; the magic, the version and the
/// code-section count are checked in that order, each as soon as its bytes
/// are available.
pub open spec fn spec_header(s: Seq<u8>) -> Result<HeaderModel, Error> {
    if s.len() < 2 {
        Err(Error::IoError)
    } else if !(s[0] == EOF_MAGIC_0 && s[1] == EOF_MAGIC_1) {
        Err(Error::InvalidMagic)
    } else if s.len() < 3 {
        Err(Error::IoError)
    } else if s[2] != EOF_VERSION {
        Err(Error::InvalidVersion)
    } else if s.len() < 9 {
        Err(Error::IoError)
    } else if spec_le16(s[7], s[8]) == 0 || spec_le16(s[7], s[8]) > MAX_CODE_SECTIONS {
        Err(Error::InvalidCodeSectionCount)
    } else if s.len() < HEADER_SIZE {
        Err(Error::IoError)
    } else {
        Ok(HeaderModel {
            magic: seq![s[0], s[1]],
            version: s[2],
            kind_type: s[3],
            type_size: spec_le16(s[4], s[5]),
            kind_code: s[6],
            num_code_sections: spec_le16(s[7], s[8]),
            code_size: spec_le16(s[9], s[10]),
            kind_container: s[11],
            num_container_sections: spec_le16(s[12], s[13]),
            container_size: s[14],
            kind_data: s[15],
            data_size: spec_le16(s[16], s[17]),
            terminator: s[18],
        })
    }
}

/// Row `i` of the types table whose bytes start at the front of `t`.
pub open spec fn spec_type_row(t: Seq<u8>, i: int) -> TypeMetadata {
    TypeMetadata {
        inputs: t[4 * i],
        outputs: t[4 * i + 1],
        max_stack_height: spec_le16(t[4 * i + 2], t[4 * i + 3]),
    }
}

/// The first `n` rows of the types table whose bytes start at the front of `t`.
pub open spec fn spec_types_rows(t: Seq<u8>, n: int) -> Seq<TypeMetadata> {
    Seq::new(n as nat, |i: int| spec_type_row(t, i))
}

/// Reference decode of the types table from the front of `t`, spanning
/// `type_size` declared bytes.
///
/// The decoder reads whole four-byte rows while the declared span allows one;
/// a declared span of zero is rejected as an empty table, a short source is
/// an I/O failure, and a leftover span of one to three bytes is a misaligned
/// table.
pub open spec fn spec_types_section(t: Seq<u8>, type_size: u16) -> Result<Seq<TypeMetadata>, Error> {
    let full = type_size as int / TYPE_RECORD_SIZE as int;
    if type_size == 0 {
        Err(Error::InvalidZeroSectionMetadata)
    } else if t.len() < 4 * full {
        Err(Error::IoError)
    } else if type_size as int % TYPE_RECORD_SIZE as int != 0 {
        Err(Error::InvalidTypeSectionSize)
    } else {
        Ok(spec_types_rows(t, full))
    }
}

/// Reference decode of the body from the bytes `t` that follow the header.
///
/// The types table comes first; the code, container and data sections are
/// then the next three byte spans of the lengths the header declares, taken
/// verbatim. The scalar fields mirror table row 0.
pub open spec fn spec_body(t: Seq<u8>, h: HeaderModel) -> Result<BodyModel, Error> {
    match spec_types_section(t, h.type_size) {
        Err(e) => Err(e),
        Ok(rows) => {
            let ts = h.type_size as int;
            let cs = h.code_size as int;
            let ns = h.container_size as int;
            let ds = h.data_size as int;
            if t.len() < ts + cs + ns + ds {
                Err(Error::IoError)
            } else {
                Ok(BodyModel {
                    types_section: rows,
                    inputs: rows[0].inputs,
                    outputs: rows[0].outputs,
                    max_stack_height: rows[0].max_stack_height,
                    code_section: t.subrange(ts, ts + cs),
                    container_section: t.subrange(ts + cs, ts + cs + ns),
                    data_section: t.subrange(ts + cs + ns, ts + cs + ns + ds),
                })
            }
        },
    }
}

/// Reference decode of a whole container from the byte stream `s`.
pub open spec fn spec_parse(s: Seq<u8>) -> Result<ContainerModel, Error> {
    match spec_header(s) {
        Err(e) => Err(e),
        Ok(h) => match spec_body(s.skip(HEADER_SIZE as int), h) {
            Err(e) => Err(e),
            Ok(b) => Ok(ContainerModel { header: h, body: b }),
        },
    }
}

/// Any stream that offers its first two bytes but not the expected magic
/// values is rejected as `InvalidMagic`, whatever the rest of the stream
/// holds: the verdict rests on the first two bytes alone.
pub proof fn lemma_invalid_magic(s: Seq<u8>)
    requires
        s.len() >= 2,
        !(s[0] == EOF_MAGIC_0 && s[1] == EOF_MAGIC_1),
    ensures
        spec_parse(s) == Err::<ContainerModel, Error>(Error::InvalidMagic),
{
}

/// A header that declares zero code sections is rejected as
/// `InvalidCodeSectionCount`, regardless of every other field.
pub proof fn lemma_zero_code_section_count(s: Seq<u8>)
    requires
        s.len() >= 9,
        s[0] == EOF_MAGIC_0,
        s[1] == EOF_MAGIC_1,
        s[2] == EOF_VERSION,
        spec_le16(s[7], s[8]) == 0,
    ensures
        spec_parse(s) == Err::<ContainerModel, Error>(Error::InvalidCodeSectionCount),
{
}

/// A header that declares more code sections than the format bound is
/// rejected as `InvalidCodeSectionCount`, regardless of every other field.
pub proof fn lemma_excessive_code_section_count(s: Seq<u8>)
    requires
        s.len() >= 9,
        s[0] == EOF_MAGIC_0,
        s[1] == EOF_MAGIC_1,
        s[2] == EOF_VERSION,
        spec_le16(s[7], s[8]) > MAX_CODE_SECTIONS,
    ensures
        spec_parse(s) == Err::<ContainerModel, Error>(Error::InvalidCodeSectionCount),
{
}

/// A valid header whose declared types-table length is not a whole number of
/// rows makes the decode fail as `InvalidTypeSectionSize`, provided the
/// stream carries the whole rows that precede the misaligned remainder (a
/// stream that runs out earlier fails as `IoError` instead).
pub proof fn lemma_misaligned_type_size(s: Seq<u8>, h: HeaderModel)
    requires
        spec_header(s) == Ok::<HeaderModel, Error>(h),
        h.type_size as int % 4 != 0,
        s.len() >= HEADER_SIZE as int + 4 * (h.type_size as int / 4),
    ensures
        spec_parse(s) == Err::<ContainerModel, Error>(Error::InvalidTypeSectionSize),
{
}

/// A valid header that declares a types table of zero bytes makes the decode
/// fail as `InvalidZeroSectionMetadata`, whatever follows the header.
pub proof fn lemma_zero_type_size(s: Seq<u8>, h: HeaderModel)
    requires
        spec_header(s) == Ok::<HeaderModel, Error>(h),
        h.type_size == 0,
    ensures
        spec_parse(s) == Err::<ContainerModel, Error>(Error::InvalidZeroSectionMetadata),
{
}

/// A stream shorter than the header's declared section lengths makes the
/// decode fail as an I/O-classified error — never a silently truncated
/// result.
pub proof fn lemma_truncated_stream(s: Seq<u8>, h: HeaderModel)
    requires
        spec_header(s) == Ok::<HeaderModel, Error>(h),
        h.type_size > 0,
        h.type_size as int % 4 == 0,
        s.len() < HEADER_SIZE as int + h.type_size as int + h.code_size as int
            + h.container_size as int + h.data_size as int,
    ensures
        spec_parse(s) == Err::<ContainerModel, Error>(Error::IoError),
{
    assert(4 * (h.type_size as int / 4) == h.type_size as int) by (nonlinear_arith)
        requires
            h.type_size as int % 4 == 0,
    ;
}

/// Byte preservation: in a successful decode, the three raw sections equal,
/// byte for byte, the corresponding spans of the input stream.
pub proof fn lemma_byte_preservation(s: Seq<u8>, c: ContainerModel)
    requires
        spec_parse(s) == Ok::<ContainerModel, Error>(c),
    ensures
        c.body.code_section == s.subrange(
            HEADER_SIZE as int + c.header.type_size as int,
            HEADER_SIZE as int + c.header.type_size as int + c.header.code_size as int,
        ),
        c.body.container_section == s.subrange(
            HEADER_SIZE as int + c.header.type_size as int + c.header.code_size as int,
            HEADER_SIZE as int + c.header.type_size as int + c.header.code_size as int
                + c.header.container_size as int,
        ),
        c.body.data_section == s.subrange(
            HEADER_SIZE as int + c.header.type_size as int + c.header.code_size as int
                + c.header.container_size as int,
            HEADER_SIZE as int + c.header.type_size as int + c.header.code_size as int
                + c.header.container_size as int + c.header.data_size as int,
        ),
{
    let hs = HEADER_SIZE as int;
    let ts = c.header.type_size as int;
    let cs = c.header.code_size as int;
    let ns = c.header.container_size as int;
    let ds = c.header.data_size as int;
    let t = s.skip(hs);
    assert(t.subrange(ts, ts + cs) =~= s.subrange(hs + ts, hs + ts + cs));
    assert(t.subrange(ts + cs, ts + cs + ns) =~= s.subrange(hs + ts + cs, hs + ts + cs + ns));
    assert(t.subrange(ts + cs + ns, ts + cs + ns + ds) =~= s.subrange(
        hs + ts + cs + ns,
        hs + ts + cs + ns + ds,
    ));
}

/// Scalar mirroring: in a successful decode, the body's `inputs`, `outputs`
/// and `max_stack_height` equal exactly the first row of the decoded types
/// table, which is never empty.
pub proof fn lemma_scalar_mirroring(s: Seq<u8>, c: ContainerModel)
    requires
        spec_parse(s) == Ok::<ContainerModel, Error>(c),
    ensures
        c.body.types_section.len() >= 1,
        c.body.inputs == c.body.types_section[0].inputs,
        c.body.outputs == c.body.types_section[0].outputs,
        c.body.max_stack_height == c.body.types_section[0].max_stack_height,
{
    assert(c.header.type_size as int / 4 >= 1) by (nonlinear_arith)
        requires
            c.header.type_size as int % 4 == 0,
            c.header.type_size as int > 0,
    ;
}

/// Single-pass decoder over an in-memory byte stream.
///
/// The stream is consumed strictly forward through a cursor; each decode call
/// owns its source for the call's duration. On failure the cursor position is
/// indeterminate and the parser must not be reused.
pub struct Parser {
    data: Vec<u8>,
    pos: usize,
}

impl Parser {
    /// The cursor never points past the end of the stream.
    pub closed spec fn wf(self) -> bool {
        self.pos <= self.data@.len()
    }

    /// The bytes not yet consumed.
    pub closed spec fn remaining(self) -> Seq<u8> {
        self.data@.skip(self.pos as int)
    }

    /// Wraps a byte stream, positioned at its first byte.
    pub fn new(data: Vec<u8>) -> (p: Parser)
        ensures
            p.wf(),
            p.remaining() == data@,
    {
        let p = Parser { data, pos: 0 };
        proof {
            assert(p.remaining() =~= p.data@);
        }
        p
    }

    /// Reads the next byte, or fails when the stream is exhausted.
    fn read_u8(&mut self) -> (r: Result<u8, Error>)
        requires
            old(self).wf(),
        ensures
            final(self).wf(),
            match r {
                Ok(b) => {
                    &&& old(self).remaining().len() >= 1
                    &&& b == old(self).remaining()[0]
                    &&& final(self).remaining() == old(self).remaining().skip(1)
                },
                Err(e) => {
                    &&& old(self).remaining().len() == 0
                    &&& e == Error::IoError
                },
            },
    {
        if self.pos < self.data.len() {
            let b = self.data[self.pos];
            self.pos = self.pos + 1;
            proof {
                assert(self.remaining() =~= old(self).remaining().skip(1));
            }
            Ok(b)
        } else {
            Err(Error::IoError)
        }
    }

    /// Reads a two-byte little-endian integer, or fails when fewer than two
    /// bytes are left.
    fn read_u16_le(&mut self) -> (r: Result<u16, Error>)
        requires
            old(self).wf(),
        ensures
            final(self).wf(),
            match r {
                Ok(v) => {
                    &&& old(self).remaining().len() >= 2
                    &&& v == spec_le16(
                        old(self).remaining()[0],
                        old(self).remaining()[1],
                    )
                    &&& final(self).remaining() == old(self).remaining().skip(2)
                },
                Err(e) => {
                    &&& old(self).remaining().len() < 2
                    &&& e == Error::IoError
                },
            },
    {
        if self.data.len() - self.pos >= 2 {
            let lo = self.data[self.pos];
            let hi = self.data[self.pos + 1];
            self.pos = self.pos + 2;
            proof {
                assert(self.remaining() =~= old(self).remaining().skip(2));
            }
            Ok((lo as u16) + (hi as u16) * 256)
        } else {
            Err(Error::IoError)
        }
    }

    /// Decodes the fixed-size header from the front of the stream, field by
    /// field in wire order, failing at the first invalid field.
    fn parse_header(&mut self) -> (r: Result<EOFHeader, Error>)
        requires
            old(self).wf(),
        ensures
            final(self).wf(),
            match r {
                Ok(h) => {
                    &&& spec_header(old(self).remaining()) == Ok::<HeaderModel, Error>(h@)
                    &&& final(self).remaining() == old(self).remaining().skip(HEADER_SIZE as int)
                },
                Err(e) => spec_header(old(self).remaining()) == Err::<HeaderModel, Error>(e),
            },
    {
        let ghost s = old(self).remaining();
        let m0 = match self.read_u8() { Ok(b) => b, Err(e) => { return Err(e); } };
        proof { assert(self.remaining() =~= s.skip(1)); }
        let m1 = match self.read_u8() { Ok(b) => b, Err(e) => { return Err(e); } };
        proof { assert(self.remaining() =~= s.skip(2)); }
        if !(m0 == EOF_MAGIC_0 && m1 == EOF_MAGIC_1) {
            return Err(Error::InvalidMagic);
        }

        let version = match self.read_u8() { Ok(b) => b, Err(e) => { return Err(e); } };
        proof { assert(self.remaining() =~= s.skip(3)); }
        if version != EOF_VERSION {
            return Err(Error::InvalidVersion);
        }

        let kind_type = match self.read_u8() { Ok(b) => b, Err(e) => { return Err(e); } };
        proof { assert(self.remaining() =~= s.skip(4)); }
        let type_size = match self.read_u16_le() { Ok(v) => v, Err(e) => { return Err(e); } };
        proof { assert(self.remaining() =~= s.skip(6)); }
        let kind_code = match self.read_u8() { Ok(b) => b, Err(e) => { return Err(e); } };
        proof { assert(self.remaining() =~= s.skip(7)); }
        let num_code_sections = match self.read_u16_le() {
            Ok(v) => v,
            Err(e) => { return Err(e); },
        };
        proof { assert(self.remaining() =~= s.skip(9)); }

        if num_code_sections == 0 || num_code_sections as usize > MAX_CODE_SECTIONS {
            return Err(Error::InvalidCodeSectionCount);
        }

        let code_size = match self.read_u16_le() { Ok(v) => v, Err(e) => { return Err(e); } };
        proof { assert(self.remaining() =~= s.skip(11)); }
        let kind_container = match self.read_u8() { Ok(b) => b, Err(e) => { return Err(e); } };
        proof { assert(self.remaining() =~= s.skip(12)); }
        let num_container_sections = match self.read_u16_le() {
            Ok(v) => v,
            Err(e) => { return Err(e); },
        };
        proof { assert(self.remaining() =~= s.skip(14)); }
        let container_size = match self.read_u8() { Ok(b) => b, Err(e) => { return Err(e); } };
        proof { assert(self.remaining() =~= s.skip(15)); }
        let kind_data = match self.read_u8() { Ok(b) => b, Err(e) => { return Err(e); } };
        proof { assert(self.remaining() =~= s.skip(16)); }
        let data_size = match self.read_u16_le() { Ok(v) => v, Err(e) => { return Err(e); } };
        proof { assert(self.remaining() =~= s.skip(18)); }
        let terminator = match self.read_u8() { Ok(b) => b, Err(e) => { return Err(e); } };
        proof { assert(self.remaining() =~= s.skip(HEADER_SIZE as int)); }

        let h = EOFHeader {
            magic: [m0, m1],
            version,
            kind_type,
            type_size,
            kind_code,
            num_code_sections,
            code_size,
            kind_container,
            num_container_sections,
            container_size,
            kind_data,
            data_size,
            terminator,
        };
        proof {
            assert(h.magic@ =~= seq![s[0], s[1]]);
            assert(h@ =~= (HeaderModel {
                magic: seq![s[0], s[1]],
                version: s[2],
                kind_type: s[3],
                type_size: spec_le16(s[4], s[5]),
                kind_code: s[6],
                num_code_sections: spec_le16(s[7], s[8]),
                code_size: spec_le16(s[9], s[10]),
                kind_container: s[11],
                num_container_sections: spec_le16(s[12], s[13]),
                container_size: s[14],
                kind_data: s[15],
                data_size: spec_le16(s[16], s[17]),
                terminator: s[18],
            }));
        }
        Ok(h)
    }

    /// Decodes the types table, consuming exactly the `type_size` bytes the
    /// header declares, four per row, and rejecting an empty or misaligned
    /// table.
    #[verifier::loop_isolation(false)]
    fn parse_types_section(&mut self, header: &EOFHeader) -> (r: Result<TypesSection, Error>)
        requires
            old(self).wf(),
        ensures
            final(self).wf(),
            match r {
                Ok(ts) => {
                    &&& spec_types_section(old(self).remaining(), header.type_size)
                        == Ok::<Seq<TypeMetadata>, Error>(ts@)
                    &&& final(self).remaining() == old(self).remaining().skip(
                        header.type_size as int,
                    )
                },
                Err(e) => spec_types_section(old(self).remaining(), header.type_size)
                    == Err::<Seq<TypeMetadata>, Error>(e),
            },
    {
        let ghost s = old(self).remaining();
        let mut types: Vec<TypeMetadata> = Vec::new();
        let mut remaining_size: usize = header.type_size as usize;

        while remaining_size > 0
            invariant
                self.wf(),
                remaining_size as int == header.type_size as int - 4 * types@.len(),
                self.remaining() == s.skip(4 * types@.len() as int),
                s.len() >= 4 * types@.len(),
                types@ == spec_types_rows(s, types@.len() as int),
            decreases remaining_size,
        {
            let ghost k = types@.len() as int;
            if remaining_size < TYPE_RECORD_SIZE {
                proof {
                    assert(header.type_size as int / 4 == k && header.type_size as int % 4 != 0)
                        by (nonlinear_arith)
                        requires
                            header.type_size as int == 4 * k + remaining_size as int,
                            0 < remaining_size < 4,
                    ;
                }
                return Err(Error::InvalidTypeSectionSize);
            }
            proof {
                assert(header.type_size as int / 4 >= k + 1) by (nonlinear_arith)
                    requires
                        header.type_size as int >= 4 * k + 4,
                ;
            }

            let inputs = match self.read_u8() { Ok(b) => b, Err(e) => { return Err(e); } };
            let outputs = match self.read_u8() { Ok(b) => b, Err(e) => { return Err(e); } };
            let max_stack_height = match self.read_u16_le() {
                Ok(v) => v,
                Err(e) => { return Err(e); },
            };
            proof {
                assert(self.remaining() =~= s.skip(4 * (k + 1)));
            }

            types.push(TypeMetadata { inputs, outputs, max_stack_height });
            remaining_size = remaining_size - TYPE_RECORD_SIZE;
            proof {
                assert(types@[k] == spec_type_row(s, k));
                assert(types@ =~= spec_types_rows(s, k + 1));
            }
        }

        if types.len() == 0 {
            return Err(Error::InvalidZeroSectionMetadata);
        }
        proof {
            let k = types@.len() as int;
            assert(header.type_size as int / 4 == k && header.type_size as int % 4 == 0)
                by (nonlinear_arith)
                requires
                    header.type_size as int == 4 * k,
            ;
        }
        Ok(TypesSection { items: types })
    }

    /// Reads exactly `size` raw bytes into a fresh buffer, failing when the
    /// stream holds fewer.
    #[verifier::loop_isolation(false)]
    fn read_section(&mut self, size: usize) -> (r: Result<Vec<u8>, Error>)
        requires
            old(self).wf(),
        ensures
            final(self).wf(),
            match r {
                Ok(v) => {
                    &&& old(self).remaining().len() >= size
                    &&& v@ == old(self).remaining().take(size as int)
                    &&& final(self).remaining() == old(self).remaining().skip(size as int)
                },
                Err(e) => {
                    &&& old(self).remaining().len() < size
                    &&& e == Error::IoError
                },
            },
    {
        if self.data.len() - self.pos < size {
            return Err(Error::IoError);
        }
        let mut buffer: Vec<u8> = Vec::new();
        let mut i: usize = 0;
        while i < size
            invariant
                *self == *old(self),
                self.wf(),
                self.data@.len() - self.pos >= size,
                i <= size,
                buffer@ == self.data@.subrange(self.pos as int, self.pos as int + i as int),
            decreases size - i,
        {
            buffer.push(self.data[self.pos + i]);
            i = i + 1;
        }
        self.pos = self.pos + size;
        proof {
            assert(buffer@ =~= old(self).remaining().take(size as int));
            assert(self.remaining() =~= old(self).remaining().skip(size as int));
        }
        Ok(buffer)
    }

    /// Decodes everything after the header: the types table, then the code,
    /// container and data sections of the lengths the header declares, and
    /// assembles the body with the scalar mirror of table row 0.
    fn parse_body(&mut self, header: &EOFHeader) -> (r: Result<Body, Error>)
        requires
            old(self).wf(),
        ensures
            final(self).wf(),
            match r {
                Ok(b) => {
                    &&& spec_body(old(self).remaining(), header@) == Ok::<BodyModel, Error>(b@)
                    &&& final(self).remaining() == old(self).remaining().skip(
                        header.type_size as int + header.code_size as int
                            + header.container_size as int + header.data_size as int,
                    )
                },
                Err(e) => spec_body(old(self).remaining(), header@) == Err::<BodyModel, Error>(e),
            },
    {
        let ghost t = old(self).remaining();
        let ghost ts = header.type_size as int;
        let ghost cs = header.code_size as int;
        let ghost ns = header.container_size as int;
        let ghost ds = header.data_size as int;

        let types_section = match self.parse_types_section(header) {
            Ok(v) => v,
            Err(e) => { return Err(e); },
        };
        proof {
            assert(header.type_size as int / 4 >= 1) by (nonlinear_arith)
                requires
                    header.type_size as int % 4 == 0,
                    header.type_size as int > 0,
            ;
        }
        let inputs = types_section.items[0].inputs;
        let outputs = types_section.items[0].outputs;
        let max_stack_height = types_section.items[0].max_stack_height;

        let code_section = match self.read_section(header.code_size as usize) {
            Ok(v) => v,
            Err(e) => { return Err(e); },
        };
        let container_section = match self.read_section(header.container_size as usize) {
            Ok(v) => v,
            Err(e) => { return Err(e); },
        };
        let data_section = match self.read_section(header.data_size as usize) {
            Ok(v) => v,
            Err(e) => { return Err(e); },
        };
        proof {
            assert(self.remaining() =~= t.skip(ts + cs + ns + ds));
        }

        let body = Body {
            types_section: types_section.items,
            inputs,
            outputs,
            max_stack_height,
            code_section,
            container_section,
            data_section,
        };
        proof {
            assert(body.code_section@ =~= t.subrange(ts, ts + cs));
            assert(body.container_section@ =~= t.subrange(ts + cs, ts + cs + ns));
            assert(body.data_section@ =~= t.subrange(ts + cs + ns, ts + cs + ns + ds));
            let rows = body.types_section@;
            assert(body@ =~= (BodyModel {
                types_section: rows,
                inputs: rows[0].inputs,
                outputs: rows[0].outputs,
                max_stack_height: rows[0].max_stack_height,
                code_section: t.subrange(ts, ts + cs),
                container_section: t.subrange(ts + cs, ts + cs + ns),
                data_section: t.subrange(ts + cs + ns, ts + cs + ns + ds),
            }));
        }
        Ok(body)
    }

    /// Decodes a whole container: header, then body. The first failure
    /// anywhere aborts the decode and is returned untouched.
    pub fn parse(&mut self) -> (r: Result<EOFContainer, Error>)
        requires
            old(self).wf(),
        ensures
            final(self).wf(),
            match r {
                Ok(c) => {
                    &&& spec_parse(old(self).remaining()) == Ok::<ContainerModel, Error>(c@)
                    &&& final(self).remaining() == old(self).remaining().skip(
                        HEADER_SIZE as int + c.header.type_size as int
                            + c.header.code_size as int + c.header.container_size as int
                            + c.header.data_size as int,
                    )
                },
                Err(e) => spec_parse(old(self).remaining()) == Err::<ContainerModel, Error>(e),
            },
    {
        let header = match self.parse_header() { Ok(h) => h, Err(e) => { return Err(e); } };
        let body = match self.parse_body(&header) { Ok(b) => b, Err(e) => { return Err(e); } };
        Ok(EOFContainer { header, body })
    }
}

} // verus!


//! Decoder for a fixed-layout binary container format (EOF: Ethereum-style
//! Object Format).
//!
//! A container is a fixed-size header, a variable-length table of type
//! metadata rows, and three raw byte sections (code, container, data) whose
//! lengths the header declares. The decoder reads a sequential byte source
//! once, front to back, validates the structural rules the format mandates at
//! header level, and returns either a fully assembled [`EOFContainer`] or the
//! specific [`error::Error`] of the first failure.
//!
//! The whole wire format is captured by the spec functions in [`parser`]
//! ([`parser::spec_parse`] in particular), and every decoding function is
//! verified against them.

pub mod constants;
pub mod error;
pub mod parser;

use vstd::prelude::*;

verus! {

/// The decode result: header plus body, produced atomically by one decode
/// call and immutable afterwards.
#[derive(Debug, PartialEq, Clone)]
pub struct EOFContainer {
    pub header: EOFHeader,
    pub body: Body,
}

/// The fixed-width header record, fields in wire order.
///
/// All multi-byte fields are little-endian on the wire. The kind tags, the
/// container counters and the terminator are decoded verbatim and not
/// validated further.
#[derive(Debug, PartialEq, Clone, Copy)]
pub struct EOFHeader {
    pub magic: [u8; 2],
    pub version: u8,
    pub kind_type: u8,
    pub type_size: u16,
    pub kind_code: u8,
    pub num_code_sections: u16,
    pub code_size: u16,
    pub kind_container: u8,
    pub num_container_sections: u16,
    pub container_size: u8,
    pub kind_data: u8,
    pub data_size: u16,
    pub terminator: u8,
}

/// Everything that follows the header: the full types table, the scalar
/// fields mirroring table row 0, and the three raw byte sections.
#[derive(Debug, PartialEq, Clone)]
pub struct Body {
    pub types_section: Vec<TypeMetadata>,
    pub inputs: u8,
    pub outputs: u8,
    pub max_stack_height: u16,
    pub code_section: Vec<u8>,
    pub container_section: Vec<u8>,
    pub data_section: Vec<u8>,
}

/// The decoded types table as its own record.
#[derive(Debug, PartialEq, Clone)]
pub struct TypesSection {
    pub items: Vec<TypeMetadata>,
}

/// One row of the types table: stack metadata of one code section.
#[derive(Debug, PartialEq, Clone, Copy)]
pub struct TypeMetadata {
    pub inputs: u8,
    pub outputs: u8,
    pub max_stack_height: u16,
}

/// Mathematical model of an [`EOFHeader`]: the same fields with the magic as
/// a sequence.
#[verifier::ext_equal]
pub ghost struct HeaderModel {
    pub magic: Seq<u8>,
    pub version: u8,
    pub kind_type: u8,
    pub type_size: u16,
    pub kind_code: u8,
    pub num_code_sections: u16,
    pub code_size: u16,
    pub kind_container: u8,
    pub num_container_sections: u16,
    pub container_size: u8,
    pub kind_data: u8,
    pub data_size: u16,
    pub terminator: u8,
}

/// Mathematical model of a [`Body`]: sequences in place of vectors.
#[verifier::ext_equal]
pub ghost struct BodyModel {
    pub types_section: Seq<TypeMetadata>,
    pub inputs: u8,
    pub outputs: u8,
    pub max_stack_height: u16,
    pub code_section: Seq<u8>,
    pub container_section: Seq<u8>,
    pub data_section: Seq<u8>,
}

/// Mathematical model of an [`EOFContainer`].
#[verifier::ext_equal]
pub ghost struct ContainerModel {
    pub header: HeaderModel,
    pub body: BodyModel,
}

impl View for EOFHeader {
    type V = HeaderModel;

    open spec fn view(&self) -> HeaderModel {
        HeaderModel {
            magic: self.magic@,
            version: self.version,
            kind_type: self.kind_type,
            type_size: self.type_size,
            kind_code: self.kind_code,
            num_code_sections: self.num_code_sections,
            code_size: self.code_size,
            kind_container: self.kind_container,
            num_container_sections: self.num_container_sections,
            container_size: self.container_size,
            kind_data: self.kind_data,
            data_size: self.data_size,
            terminator: self.terminator,
        }
    }
}

impl View for Body {
    type V = BodyModel;

    open spec fn view(&self) -> BodyModel {
        BodyModel {
            types_section: self.types_section@,
            inputs: self.inputs,
            outputs: self.outputs,
            max_stack_height: self.max_stack_height,
            code_section: self.code_section@,
            container_section: self.container_section@,
            data_section: self.data_section@,
        }
    }
}

impl View for TypesSection {
    type V = Seq<TypeMetadata>;

    open spec fn view(&self) -> Seq<TypeMetadata> {
        self.items@
    }
}

impl View for EOFContainer {
    type V = ContainerModel;

    open spec fn view(&self) -> ContainerModel {
        ContainerModel { header: self.header@, body: self.body@ }
    }
}

} // verus!

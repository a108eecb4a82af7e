//! The descriptors of the columns of a result set.

use crate::error::{HdbError, ProtocolError};
use crate::parts::parameter_descriptor::{name_at, parse_name};
use crate::repeat::{
    irepeat_at, lemma_irepeat_failure, lemma_irepeat_step, lemma_repeat_failure,
    lemma_repeat_step, lemma_views_empty, lemma_views_push, repeat_at, views,
};
use crate::wire::{
    get_i16, get_skip, get_u32, get_u8, skip_bytes, take_i16, take_u32, take_u8,
};
use vstd::prelude::*;

verus! {

/// Set in the options of a column that may be NULL.
pub const COLUMN_NULLABLE: u8 = 0b0000_0010;

/// The offset of a name that a column does not have.
pub const NO_OFFSET: u32 = 0xffff_ffff;

/// The descriptor of one column.
#[derive(Clone, Debug, PartialEq, Eq)]
pub struct FieldMetadata {
    pub column_options: u8,
    pub type_id: u8,
    pub scale: i16,
    pub precision: i16,
    pub name: Option<String>,
    pub schema_name: Option<String>,
    pub table_name: Option<String>,
    pub column_name: Option<String>,
}

/// The fixed part of the descriptor of a column, and where its names are.
pub struct RawField {
    pub column_options: u8,
    pub type_id: u8,
    pub scale: i16,
    pub precision: i16,
    pub name_offset: u32,
    pub schema_offset: u32,
    pub table_offset: u32,
    pub column_offset: u32,
}

/// The descriptor of a column as the model sees it.
pub struct FieldView {
    pub column_options: u8,
    pub type_id: u8,
    pub scale: i16,
    pub precision: i16,
    pub name: Option<Seq<char>>,
    pub schema_name: Option<Seq<char>>,
    pub table_name: Option<Seq<char>>,
    pub column_name: Option<Seq<char>>,
}

/// The name as the contracts see it.
pub open spec fn name_view(o: Option<String>) -> Option<Seq<char>> {
    match o {
        Some(n) => Some(n@),
        None => None,
    }
}

impl View for FieldMetadata {
    type V = FieldView;

    open spec fn view(&self) -> FieldView {
        FieldView {
            column_options: self.column_options,
            type_id: self.type_id,
            scale: self.scale,
            precision: self.precision,
            name: name_view(self.name),
            schema_name: name_view(self.schema_name),
            table_name: name_view(self.table_name),
            column_name: name_view(self.column_name),
        }
    }
}

impl FieldView {
    /// Whether the column may hold NULL.
    pub open spec fn nullable(self) -> bool {
        self.column_options & COLUMN_NULLABLE != 0
    }
}

impl FieldMetadata {
    /// Whether the column may be NULL.
    pub fn nullable(&self) -> (r: bool)
        ensures
            r == self@.nullable(),
    {
        (self.column_options & COLUMN_NULLABLE) != 0
    }

    /// The type code of the column.
    pub fn type_id(&self) -> (r: u8)
        ensures
            r == self@.type_id,
    {
        self.type_id
    }

    /// Number of digits behind the point.
    pub fn scale(&self) -> (r: i16)
        ensures
            r == self@.scale,
    {
        self.scale
    }

    /// Number of digits, or of characters.
    pub fn precision(&self) -> (r: i16)
        ensures
            r == self@.precision,
    {
        self.precision
    }
}

/// The fixed part of a descriptor: options, type, scale, precision, two
/// unused bytes, and the offsets of name, schema, table and column name.
pub open spec fn raw_field_at(s: Seq<u8>, pos: int) -> Result<(RawField, int), HdbError> {
    match get_u8(s, pos) {
        Err(e) => Err(e),
        Ok((column_options, p1)) => match get_u8(s, p1) {
            Err(e) => Err(e),
            Ok((type_id, p2)) => match get_i16(s, p2) {
                Err(e) => Err(e),
                Ok((scale, p3)) => match get_i16(s, p3) {
                    Err(e) => Err(e),
                    Ok((precision, p4)) => match get_skip(s, p4, 2) {
                        Err(e) => Err(e),
                        Ok(p5) => match get_u32(s, p5) {
                            Err(e) => Err(e),
                            Ok((name_offset, p6)) => match get_u32(s, p6) {
                                Err(e) => Err(e),
                                Ok((schema_offset, p7)) => match get_u32(s, p7) {
                                    Err(e) => Err(e),
                                    Ok((table_offset, p8)) => match get_u32(s, p8) {
                                        Err(e) => Err(e),
                                        Ok((column_offset, p9)) => Ok(
                                            (
                                                RawField {
                                                    column_options,
                                                    type_id,
                                                    scale,
                                                    precision,
                                                    name_offset,
                                                    schema_offset,
                                                    table_offset,
                                                    column_offset,
                                                },
                                                p9,
                                            ),
                                        ),
                                    },
                                },
                            },
                        },
                    },
                },
            },
        },
    }
}

/// The name at an offset of the table of names that begins at `names`.
pub open spec fn resolved(s: Seq<u8>, names: int, offset: u32) -> Result<
    Option<Seq<char>>,
    HdbError,
> {
    if offset == NO_OFFSET {
        Ok(None)
    } else {
        match name_at(s, names + offset) {
            Err(e) => Err(e),
            Ok((t, _)) => Ok(Some(t)),
        }
    }
}

/// A descriptor with its names resolved.
pub open spec fn field_at(raw: RawField, s: Seq<u8>, names: int) -> Result<FieldView, HdbError> {
    match resolved(s, names, raw.name_offset) {
        Err(e) => Err(e),
        Ok(name) => match resolved(s, names, raw.schema_offset) {
            Err(e) => Err(e),
            Ok(schema_name) => match resolved(s, names, raw.table_offset) {
                Err(e) => Err(e),
                Ok(table_name) => match resolved(s, names, raw.column_offset) {
                    Err(e) => Err(e),
                    Ok(column_name) => Ok(
                        FieldView {
                            column_options: raw.column_options,
                            type_id: raw.type_id,
                            scale: raw.scale,
                            precision: raw.precision,
                            name,
                            schema_name,
                            table_name,
                            column_name,
                        },
                    ),
                },
            },
        },
    }
}

/// Reads the fixed part of one column.
pub open spec fn raw_field_reader() -> spec_fn(Seq<u8>, int) -> Result<(RawField, int), HdbError> {
    |s: Seq<u8>, p: int| raw_field_at(s, p)
}

/// Reads the names of the column at an index.
pub open spec fn field_reader(raws: Seq<RawField>) -> spec_fn(int, Seq<u8>, int) -> Result<
    (FieldView, int),
    HdbError,
> {
    |i: int, s: Seq<u8>, names: int|
        match field_at(raws[i], s, names) {
            Err(e) => Err(e),
            Ok(f) => Ok((f, names)),
        }
}

/// What a buffer says, from `pos` on, of the descriptors of `count`
/// columns: the table of the fixed parts, and behind it, up to the end of
/// the buffer, the table of names.
pub open spec fn resultset_metadata_at(s: Seq<u8>, pos: int, count: nat) -> Result<
    (Seq<FieldView>, int),
    HdbError,
> {
    match repeat_at(raw_field_reader(), s, pos, count) {
        Err(e) => Err(e),
        Ok((raws, names)) => match irepeat_at(field_reader(raws), s, names, count) {
            Err(e) => Err(e),
            Ok((fields, _)) => Ok((fields, s.len() as int)),
        },
    }
}

/// The fixed part of a descriptor as it was read.
struct RawParts {
    column_options: u8,
    type_id: u8,
    scale: i16,
    precision: i16,
    name_offset: u32,
    schema_offset: u32,
    table_offset: u32,
    column_offset: u32,
}

impl View for RawParts {
    type V = RawField;

    closed spec fn view(&self) -> RawField {
        RawField {
            column_options: self.column_options,
            type_id: self.type_id,
            scale: self.scale,
            precision: self.precision,
            name_offset: self.name_offset,
            schema_offset: self.schema_offset,
            table_offset: self.table_offset,
            column_offset: self.column_offset,
        }
    }
}

/// Reads the fixed part of a descriptor.
fn parse_raw(b: &[u8], pos: usize) -> (r: Result<(RawParts, usize), HdbError>)
    ensures
        crate::wire::agrees_view(r, raw_field_at(b@, pos as int)),
        r matches Ok((_, p)) ==> p <= b@.len(),
{
    let (column_options, p1) = take_u8(b, pos)?;
    let (type_id, p2) = take_u8(b, p1)?;
    let (scale, p3) = take_i16(b, p2)?;
    let (precision, p4) = take_i16(b, p3)?;
    let p5: usize = skip_bytes(b, p4, 2)?;
    let (name_offset, p6) = take_u32(b, p5)?;
    let (schema_offset, p7) = take_u32(b, p6)?;
    let (table_offset, p8) = take_u32(b, p7)?;
    let (column_offset, p9) = take_u32(b, p8)?;
    Ok(
        (
            RawParts {
                column_options,
                type_id,
                scale,
                precision,
                name_offset,
                schema_offset,
                table_offset,
                column_offset,
            },
            p9,
        ),
    )
}

/// Reads the table of the fixed parts.
fn parse_raws(count: usize, b: &[u8], pos: usize) -> (r: Result<(Vec<RawParts>, usize), HdbError>)
    ensures
        match r {
            Ok((v, p)) => repeat_at(raw_field_reader(), b@, pos as int, count as nat) == Ok::<
                _,
                HdbError,
            >((views(v@), p as int)) && v@.len() == count && (count > 0 ==> p <= b@.len()),
            Err(e) => repeat_at(raw_field_reader(), b@, pos as int, count as nat) == Err::<
                (Seq<RawField>, int),
                _,
            >(e),
        },
{
    let mut out: Vec<RawParts> = Vec::new();
    let mut p: usize = pos;
    let mut i: usize = 0;
    proof {
        lemma_views_empty(out@);
    }
    while i < count
        invariant
            i <= count,
            out@.len() == i,
            i > 0 ==> p <= b@.len(),
            repeat_at(raw_field_reader(), b@, pos as int, i as nat) == Ok::<_, HdbError>(
                (views(out@), p as int),
            ),
        decreases count - i,
    {
        proof {
            lemma_repeat_step(raw_field_reader(), b@, pos as int, i as nat);
            assert(raw_field_reader()(b@, p as int) == raw_field_at(b@, p as int));
        }
        let ghost next = repeat_at(raw_field_reader(), b@, pos as int, (i + 1) as nat);
        let (x, q) = match parse_raw(b, p) {
            Ok(t) => t,
            Err(e) => {
                proof {
                    assert(next == Err::<(Seq<RawField>, int), _>(e));
                    lemma_repeat_failure(
                        raw_field_reader(),
                        b@,
                        pos as int,
                        (i + 1) as nat,
                        count as nat,
                    );
                }
                return Err(e);
            },
        };
        proof {
            lemma_views_push(out@, x);
        }
        out.push(x);
        p = q;
        i = i + 1;
    }
    Ok((out, p))
}

/// Looks a name up in the table of names.
fn resolve(b: &[u8], names: usize, offset: u32) -> (r: Result<Option<String>, HdbError>)
    ensures
        match r {
            Ok(o) => resolved(b@, names as int, offset) == Ok::<_, HdbError>(name_view(o)),
            Err(e) => resolved(b@, names as int, offset) == Err::<Option<Seq<char>>, _>(e),
        },
{
    if offset == NO_OFFSET {
        return Ok(None);
    }
    let end: usize = b.len();
    let at: usize = match names.checked_add(offset as usize) {
        Some(x) => x,
        None => {
            return Err(HdbError::Protocol(ProtocolError::Truncated));
        },
    };
    let (t, _) = parse_name(b, at)?;
    Ok(Some(t))
}

/// The descriptors of the columns of a result set.
#[derive(Clone, Debug, PartialEq, Eq)]
pub struct ResultSetMetadata {
    fields: Vec<FieldMetadata>,
}

impl View for ResultSetMetadata {
    type V = Seq<FieldView>;

    closed spec fn view(&self) -> Seq<FieldView> {
        views(self.fields@)
    }
}

impl ResultSetMetadata {
    /// The metadata of these columns.
    pub fn new(fields: Vec<FieldMetadata>) -> (r: ResultSetMetadata)
        ensures
            r@ == views(fields@),
    {
        ResultSetMetadata { fields }
    }

    /// Number of columns.
    pub fn number_of_fields(&self) -> (r: usize)
        ensures
            r == self@.len(),
    {
        self.fields.len()
    }

    /// The descriptor of a column, if there is such a column.
    pub fn field(&self, i: usize) -> (r: Option<&FieldMetadata>)
        ensures
            match r {
                Some(f) => i < self@.len() && f@ == self@[i as int],
                None => i >= self@.len(),
            },
    {
        if i < self.fields.len() {
            Some(&self.fields[i])
        } else {
            None
        }
    }

    /// Reads the descriptors of `count` columns from a buffer that ends with
    /// the table of names.
    pub fn parse(count: usize, b: &[u8], pos: usize) -> (r: Result<
        (ResultSetMetadata, usize),
        HdbError,
    >)
        ensures
            crate::wire::agrees_view(r, resultset_metadata_at(b@, pos as int, count as nat)),
            r matches Ok((m, _)) ==> m@.len() == count,
    {
        let (raws, names) = parse_raws(count, b, pos)?;
        let ghost rv = views(raws@);
        let mut out: Vec<FieldMetadata> = Vec::new();
        let mut i: usize = 0;
        proof {
            lemma_views_empty(out@);
        }
        while i < count
            invariant
                i <= count,
                out@.len() == i,
                raws@.len() == count,
                rv == views(raws@),
                repeat_at(raw_field_reader(), b@, pos as int, count as nat) == Ok::<_, HdbError>(
                    (rv, names as int),
                ),
                irepeat_at(field_reader(rv), b@, names as int, i as nat) == Ok::<_, HdbError>(
                    (views(out@), names as int),
                ),
            decreases count - i,
        {
            proof {
                lemma_irepeat_step(field_reader(rv), b@, names as int, i as nat);
                assert(field_reader(rv)(i as int, b@, names as int) == (match field_at(
                    rv[i as int],
                    b@,
                    names as int,
                ) {
                    Err(e) => Err::<(FieldView, int), _>(e),
                    Ok(f) => Ok((f, names as int)),
                }));
                assert(rv[i as int] == raws@[i as int]@);
            }
            let ghost next = irepeat_at(field_reader(rv), b@, names as int, (i + 1) as nat);
            let raw = &raws[i];
            let step: Result<FieldMetadata, HdbError> = match resolve(b, names, raw.name_offset) {
                Err(e) => Err(e),
                Ok(name) => match resolve(b, names, raw.schema_offset) {
                    Err(e) => Err(e),
                    Ok(schema_name) => match resolve(b, names, raw.table_offset) {
                        Err(e) => Err(e),
                        Ok(table_name) => match resolve(b, names, raw.column_offset) {
                            Err(e) => Err(e),
                            Ok(column_name) => Ok(
                                FieldMetadata {
                                    column_options: raw.column_options,
                                    type_id: raw.type_id,
                                    scale: raw.scale,
                                    precision: raw.precision,
                                    name,
                                    schema_name,
                                    table_name,
                                    column_name,
                                },
                            ),
                        },
                    },
                },
            };
            let x: FieldMetadata = match step {
                Ok(x) => x,
                Err(e) => {
                    proof {
                        assert(next == Err::<(Seq<FieldView>, int), _>(e));
                        lemma_irepeat_failure(
                            field_reader(rv),
                            b@,
                            names as int,
                            (i + 1) as nat,
                            count as nat,
                        );
                    }
                    return Err(e);
                },
            };
            proof {
                lemma_views_push(out@, x);
            }
            out.push(x);
            i = i + 1;
        }
        Ok((ResultSetMetadata { fields: out }, b.len()))
    }
}

} // verus!

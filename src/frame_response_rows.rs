//! The body of a rows result: its metadata block (flags, column count,
//! paging state, global table space and column specs) and the row cells.
use vstd::prelude::*;
use crate::types::{
    cut_result, int_bytes, lemma_blob_cut, lemma_int_cut, lemma_short_cut,
    lemma_string_cut, lemma_value_cut, opt_bytes, read_blob, read_int, read_short, read_string, read_value,
    spec_blob, spec_int, spec_short, spec_string, spec_value, value_at, write_int,
    DecodeError, Parsed,
};

verus! {

pub const GLOBAL_TABLE_SPACE: i32 = 0x0001;

pub const HAS_MORE_PAGES: i32 = 0x0002;

pub const NO_METADATA: i32 = 0x0004;

/// The bits of all known flags.
pub const KNOWN_FLAGS: i32 = 0x0007;

/// Whether bit `bit` is set in the flag value `flag`.
pub open spec fn has_bit(flag: i32, bit: i32) -> bool {
    flag & bit != 0
}

/// The flag value `flag` with bit `bit` added.
pub open spec fn set_bit(flag: i32, bit: i32) -> i32 {
    flag | bit
}

/// A flag that makes part of the metadata block present or absent.
#[derive(Debug, Clone, Copy, PartialEq, Eq, Structural)]
pub enum RowsMetadataFlag {
    GlobalTableSpace,
    HasMorePages,
    NoMetadata,
}

impl RowsMetadataFlag {
    /// The bit that stands for this flag.
    pub open spec fn bit(self) -> i32 {
        match self {
            RowsMetadataFlag::GlobalTableSpace => GLOBAL_TABLE_SPACE,
            RowsMetadataFlag::HasMorePages => HAS_MORE_PAGES,
            RowsMetadataFlag::NoMetadata => NO_METADATA,
        }
    }

    /// Shows if provided flag contains GlobalTableSpace rows metadata flag
    pub fn has_global_table_space(flag: i32) -> (r: bool)
        ensures
            r == has_bit(flag, GLOBAL_TABLE_SPACE),
    {
        (flag & GLOBAL_TABLE_SPACE) != 0
    }

    /// Sets GlobalTableSpace rows metadata flag
    pub fn set_global_table_space(flag: i32) -> (r: i32)
        ensures
            r == set_bit(flag, GLOBAL_TABLE_SPACE),
    {
        flag | GLOBAL_TABLE_SPACE
    }

    /// Shows if provided flag contains HasMorePages rows metadata flag
    pub fn has_has_more_pages(flag: i32) -> (r: bool)
        ensures
            r == has_bit(flag, HAS_MORE_PAGES),
    {
        (flag & HAS_MORE_PAGES) != 0
    }

    /// Sets HasMorePages rows metadata flag
    pub fn set_has_more_pages(flag: i32) -> (r: i32)
        ensures
            r == set_bit(flag, HAS_MORE_PAGES),
    {
        flag | HAS_MORE_PAGES
    }

    /// Shows if provided flag contains NoMetadata rows metadata flag
    pub fn has_no_metadata(flag: i32) -> (r: bool)
        ensures
            r == has_bit(flag, NO_METADATA),
    {
        (flag & NO_METADATA) != 0
    }

    /// Sets NoMetadata rows metadata flag
    pub fn set_no_metadata(flag: i32) -> (r: i32)
        ensures
            r == set_bit(flag, NO_METADATA),
    {
        flag | NO_METADATA
    }

    /// The flag's bit as an `[int]`.
    pub fn into_cbytes(&self) -> (r: Vec<u8>)
        ensures
            r@ == int_bytes(self.bit()),
    {
        match *self {
            RowsMetadataFlag::GlobalTableSpace => write_int(GLOBAL_TABLE_SPACE),
            RowsMetadataFlag::HasMorePages => write_int(HAS_MORE_PAGES),
            RowsMetadataFlag::NoMetadata => write_int(NO_METADATA),
        }
    }

    /// Reads one flag from an `[int]` at the start of `bytes`. The flag is
    /// told by the known bits of the value; bits outside the known set are
    /// ignored, and exactly one known bit must be set.
    pub fn from_bytes(bytes: Vec<u8>) -> (r: Result<RowsMetadataFlag, DecodeError>)
        ensures
            r == spec_single_flag(bytes@),
    {
        match read_int(bytes.as_slice(), 0) {
            Err(e) => Err(e),
            Ok((v, _)) => {
                let known: i32 = v & KNOWN_FLAGS;
                if known == GLOBAL_TABLE_SPACE {
                    Ok(RowsMetadataFlag::GlobalTableSpace)
                } else if known == HAS_MORE_PAGES {
                    Ok(RowsMetadataFlag::HasMorePages)
                } else if known == NO_METADATA {
                    Ok(RowsMetadataFlag::NoMetadata)
                } else {
                    Err(DecodeError::UnknownFlagBit(v))
                }
            },
        }
    }

    /// The known flags set in `flag`, in bit order; other bits are ignored.
    pub fn flags_from_int(flag: i32) -> (r: Vec<RowsMetadataFlag>)
        ensures
            r@ == flag_list(flag),
    {
        let mut r: Vec<RowsMetadataFlag> = Vec::new();
        if Self::has_global_table_space(flag) {
            r.push(RowsMetadataFlag::GlobalTableSpace);
        }
        if Self::has_has_more_pages(flag) {
            r.push(RowsMetadataFlag::HasMorePages);
        }
        if Self::has_no_metadata(flag) {
            r.push(RowsMetadataFlag::NoMetadata);
        }
        r
    }
}

/// One flag read from the `[int]` at the start of `b`, told by the value's
/// known bits alone.
pub open spec fn spec_single_flag(b: Seq<u8>) -> Result<RowsMetadataFlag, DecodeError> {
    match spec_int(b, 0) {
        Err(e) => Err(e),
        Ok((v, _)) => {
            if v & KNOWN_FLAGS == GLOBAL_TABLE_SPACE {
                Ok(RowsMetadataFlag::GlobalTableSpace)
            } else if v & KNOWN_FLAGS == HAS_MORE_PAGES {
                Ok(RowsMetadataFlag::HasMorePages)
            } else if v & KNOWN_FLAGS == NO_METADATA {
                Ok(RowsMetadataFlag::NoMetadata)
            } else {
                Err(DecodeError::UnknownFlagBit(v))
            }
        },
    }
}

/// The known flags whose bits are set in `flag`, in bit order.
pub open spec fn flag_list(flag: i32) -> Seq<RowsMetadataFlag> {
    (if has_bit(flag, GLOBAL_TABLE_SPACE) {
        seq![RowsMetadataFlag::GlobalTableSpace]
    } else {
        Seq::empty()
    }) + (if has_bit(flag, HAS_MORE_PAGES) {
        seq![RowsMetadataFlag::HasMorePages]
    } else {
        Seq::empty()
    }) + (if has_bit(flag, NO_METADATA) {
        seq![RowsMetadataFlag::NoMetadata]
    } else {
        Seq::empty()
    })
}

/// Setting a bit makes it present, and setting it again changes nothing.
pub proof fn lemma_set_bit(flag: i32, bit: i32)
    requires
        bit != 0,
    ensures
        has_bit(set_bit(flag, bit), bit),
        set_bit(set_bit(flag, bit), bit) == set_bit(flag, bit),
{
    assert((flag | bit) & bit != 0) by (bit_vector)
        requires
            bit != 0,
    ;
    assert((flag | bit) | bit == flag | bit) by (bit_vector);
}

/// Encoding a flag and reading the bytes back gives the same flag.
pub proof fn lemma_flag_round_trip(f: RowsMetadataFlag)
    ensures
        spec_single_flag(int_bytes(f.bit())) == Ok::<RowsMetadataFlag, DecodeError>(f),
{
    let b = int_bytes(f.bit());
    assert(b.len() == 4);
    assert(1i32 & 7i32 == 1i32) by (bit_vector);
    assert(2i32 & 7i32 == 2i32) by (bit_vector);
    assert(4i32 & 7i32 == 4i32) by (bit_vector);
}

/// The type of a column, as the two-byte code in a column spec names it.
#[derive(Debug, Clone, Copy, PartialEq, Eq, Structural)]
pub enum ColType {
    Custom,
    Ascii,
    Bigint,
    Blob,
    Boolean,
    Counter,
    Decimal,
    Double,
    Float,
    Int,
    Timestamp,
    Uuid,
    Varchar,
    Varint,
    Timeuuid,
    Inet,
    Date,
    Time,
    Smallint,
    Tinyint,
    List,
    MapType,
    SetType,
    Udt,
    Tuple,
}

/// The wire code of each column type.
pub open spec fn col_type_code(t: ColType) -> u16 {
    match t {
        ColType::Custom => 0x0000,
        ColType::Ascii => 0x0001,
        ColType::Bigint => 0x0002,
        ColType::Blob => 0x0003,
        ColType::Boolean => 0x0004,
        ColType::Counter => 0x0005,
        ColType::Decimal => 0x0006,
        ColType::Double => 0x0007,
        ColType::Float => 0x0008,
        ColType::Int => 0x0009,
        ColType::Timestamp => 0x000B,
        ColType::Uuid => 0x000C,
        ColType::Varchar => 0x000D,
        ColType::Varint => 0x000E,
        ColType::Timeuuid => 0x000F,
        ColType::Inet => 0x0010,
        ColType::Date => 0x0011,
        ColType::Time => 0x0012,
        ColType::Smallint => 0x0013,
        ColType::Tinyint => 0x0014,
        ColType::List => 0x0020,
        ColType::MapType => 0x0021,
        ColType::SetType => 0x0022,
        ColType::Udt => 0x0030,
        ColType::Tuple => 0x0031,
    }
}

/// The column type that a wire code names.
pub open spec fn spec_col_type(code: u16) -> Result<ColType, DecodeError> {
    match code {
        0x0000 => Ok(ColType::Custom),
        0x0001 => Ok(ColType::Ascii),
        0x0002 => Ok(ColType::Bigint),
        0x0003 => Ok(ColType::Blob),
        0x0004 => Ok(ColType::Boolean),
        0x0005 => Ok(ColType::Counter),
        0x0006 => Ok(ColType::Decimal),
        0x0007 => Ok(ColType::Double),
        0x0008 => Ok(ColType::Float),
        0x0009 => Ok(ColType::Int),
        0x000B => Ok(ColType::Timestamp),
        0x000C => Ok(ColType::Uuid),
        0x000D => Ok(ColType::Varchar),
        0x000E => Ok(ColType::Varint),
        0x000F => Ok(ColType::Timeuuid),
        0x0010 => Ok(ColType::Inet),
        0x0011 => Ok(ColType::Date),
        0x0012 => Ok(ColType::Time),
        0x0013 => Ok(ColType::Smallint),
        0x0014 => Ok(ColType::Tinyint),
        0x0020 => Ok(ColType::List),
        0x0021 => Ok(ColType::MapType),
        0x0022 => Ok(ColType::SetType),
        0x0030 => Ok(ColType::Udt),
        0x0031 => Ok(ColType::Tuple),
        _ => Err(DecodeError::UnknownColumnType(code)),
    }
}

impl ColType {
    /// The column type that `code` names.
    pub fn from_code(code: u16) -> (r: Result<ColType, DecodeError>)
        ensures
            r == spec_col_type(code),
    {
        match code {
            0x0000 => Ok(ColType::Custom),
            0x0001 => Ok(ColType::Ascii),
            0x0002 => Ok(ColType::Bigint),
            0x0003 => Ok(ColType::Blob),
            0x0004 => Ok(ColType::Boolean),
            0x0005 => Ok(ColType::Counter),
            0x0006 => Ok(ColType::Decimal),
            0x0007 => Ok(ColType::Double),
            0x0008 => Ok(ColType::Float),
            0x0009 => Ok(ColType::Int),
            0x000B => Ok(ColType::Timestamp),
            0x000C => Ok(ColType::Uuid),
            0x000D => Ok(ColType::Varchar),
            0x000E => Ok(ColType::Varint),
            0x000F => Ok(ColType::Timeuuid),
            0x0010 => Ok(ColType::Inet),
            0x0011 => Ok(ColType::Date),
            0x0012 => Ok(ColType::Time),
            0x0013 => Ok(ColType::Smallint),
            0x0014 => Ok(ColType::Tinyint),
            0x0020 => Ok(ColType::List),
            0x0021 => Ok(ColType::MapType),
            0x0022 => Ok(ColType::SetType),
            0x0030 => Ok(ColType::Udt),
            0x0031 => Ok(ColType::Tuple),
            _ => Err(DecodeError::UnknownColumnType(code)),
        }
    }

    /// The wire code of this column type.
    pub fn code(&self) -> (r: u16)
        ensures
            r == col_type_code(*self),
    {
        match *self {
            ColType::Custom => 0x0000,
            ColType::Ascii => 0x0001,
            ColType::Bigint => 0x0002,
            ColType::Blob => 0x0003,
            ColType::Boolean => 0x0004,
            ColType::Counter => 0x0005,
            ColType::Decimal => 0x0006,
            ColType::Double => 0x0007,
            ColType::Float => 0x0008,
            ColType::Int => 0x0009,
            ColType::Timestamp => 0x000B,
            ColType::Uuid => 0x000C,
            ColType::Varchar => 0x000D,
            ColType::Varint => 0x000E,
            ColType::Timeuuid => 0x000F,
            ColType::Inet => 0x0010,
            ColType::Date => 0x0011,
            ColType::Time => 0x0012,
            ColType::Smallint => 0x0013,
            ColType::Tinyint => 0x0014,
            ColType::List => 0x0020,
            ColType::MapType => 0x0021,
            ColType::SetType => 0x0022,
            ColType::Udt => 0x0030,
            ColType::Tuple => 0x0031,
        }
    }


    /// Reads a column-type code (a `[short]`) at the start of `bytes`.
    pub fn from_bytes(bytes: Vec<u8>) -> (r: Result<ColType, DecodeError>)
        ensures
            r == match spec_short(bytes@, 0) {
                Ok((code, _)) => spec_col_type(code),
                Err(e) => Err(e),
            },
    {
        match read_short(bytes.as_slice(), 0) {
            Ok((code, _)) => Self::from_code(code),
            Err(e) => Err(e),
        }
    }
}

/// Decoding the wire code of a column type gives that type back, and a code
/// that decodes names the type whose code it is.
pub proof fn lemma_col_type_round_trip(t: ColType, code: u16)
    ensures
        spec_col_type(col_type_code(t)) == Ok::<ColType, DecodeError>(t),
        spec_col_type(code) matches Ok(u) ==> col_type_code(u) == code,
{
}

/// One column descriptor of a metadata block.
#[derive(Debug)]
pub struct ColSpec {
    /// The keyspace name; present only when the block has no global table space.
    pub ksname: Option<String>,
    /// The table name; present only when the block has no global table space.
    pub tablename: Option<String>,
    /// Column name
    pub name: String,
    /// Column type
    pub col_type: ColType,
}

/// What a `ColSpec` holds, with strings as character sequences.
pub ghost struct ColSpecModel {
    pub ksname: Option<Seq<char>>,
    pub tablename: Option<Seq<char>>,
    pub name: Seq<char>,
    pub col_type: ColType,
}

pub open spec fn opt_str(o: Option<String>) -> Option<Seq<char>> {
    match o {
        Some(s) => Some(s@),
        None => None,
    }
}

impl View for ColSpec {
    type V = ColSpecModel;

    open spec fn view(&self) -> ColSpecModel {
        ColSpecModel {
            ksname: opt_str(self.ksname),
            tablename: opt_str(self.tablename),
            name: self.name@,
            col_type: self.col_type,
        }
    }
}

/// The column name and type code at `p`, after the optional names `ks` and `tb`.
pub open spec fn spec_col_spec_tail(
    b: Seq<u8>,
    p: int,
    ks: Option<Seq<char>>,
    tb: Option<Seq<char>>,
) -> Parsed<ColSpecModel> {
    match spec_string(b, p) {
        Err(e) => Err(e),
        Ok((name, q)) => match spec_short(b, q) {
            Err(e) => Err(e),
            Ok((code, r)) => match spec_col_type(code) {
                Err(e) => Err(e),
                Ok(t) => Ok((ColSpecModel { ksname: ks, tablename: tb, name, col_type: t }, r)),
            },
        },
    }
}

/// A column spec at `p`; it carries its own keyspace and table names unless
/// the block has a global table space.
pub open spec fn spec_col_spec(b: Seq<u8>, p: int, global_table_space: bool) -> Parsed<ColSpecModel> {
    if global_table_space {
        spec_col_spec_tail(b, p, None, None)
    } else {
        match spec_string(b, p) {
            Err(e) => Err(e),
            Ok((ks, q)) => match spec_string(b, q) {
                Err(e) => Err(e),
                Ok((tb, r)) => spec_col_spec_tail(b, r, Some(ks), Some(tb)),
            },
        }
    }
}

/// `n` column specs, one after the other, from `p`.
pub open spec fn spec_col_specs(b: Seq<u8>, p: int, global_table_space: bool, n: nat) -> Parsed<
    Seq<ColSpecModel>,
>
    decreases n,
{
    if n == 0 {
        Ok((Seq::empty(), p))
    } else {
        match spec_col_specs(b, p, global_table_space, (n - 1) as nat) {
            Err(e) => Err(e),
            Ok((s, q)) => match spec_col_spec(b, q, global_table_space) {
                Err(e) => Err(e),
                Ok((c, r)) => Ok((s.push(c), r)),
            },
        }
    }
}

pub open spec fn col_spec_at(r: Result<(ColSpec, usize), DecodeError>) -> Parsed<ColSpecModel> {
    match r {
        Ok((c, q)) => Ok((c@, q as int)),
        Err(e) => Err(e),
    }
}

pub open spec fn col_specs_view(s: Seq<ColSpec>) -> Seq<ColSpecModel> {
    s.map_values(|c: ColSpec| c@)
}

/// Once reading the column specs has failed, reading more fails the same way.
pub proof fn lemma_col_specs_err(b: Seq<u8>, p: int, g: bool, i: nat, n: nat)
    requires
        i <= n,
        spec_col_specs(b, p, g, i) is Err,
    ensures
        spec_col_specs(b, p, g, n) == spec_col_specs(b, p, g, i),
    decreases n,
{
    if n > i {
        lemma_col_specs_err(b, p, g, i, (n - 1) as nat);
    }
}

impl ColSpec {
    /// Reads one column spec at `pos`.
    pub fn from_bytes(bytes: &[u8], pos: usize, global_table_space: bool) -> (r: Result<
        (ColSpec, usize),
        DecodeError,
    >)
        ensures
            col_spec_at(r) == spec_col_spec(bytes@, pos as int, global_table_space),
    {
        let mut p: usize = pos;
        let mut ksname: Option<String> = None;
        let mut tablename: Option<String> = None;
        if !global_table_space {
            let (ks, q) = match read_string(bytes, p) {
                Ok(x) => x,
                Err(e) => return Err(e),
            };
            let (tb, r) = match read_string(bytes, q) {
                Ok(x) => x,
                Err(e) => return Err(e),
            };
            ksname = Some(ks);
            tablename = Some(tb);
            p = r;
        }
        let (name, q) = match read_string(bytes, p) {
            Ok(x) => x,
            Err(e) => return Err(e),
        };
        let (code, r) = match read_short(bytes, q) {
            Ok(x) => x,
            Err(e) => return Err(e),
        };
        let col_type = match ColType::from_code(code) {
            Ok(t) => t,
            Err(e) => return Err(e),
        };
        Ok((ColSpec { ksname, tablename, name, col_type }, r))
    }
}

/// Reads `n` column specs from `pos`.
fn read_col_specs(bytes: &[u8], pos: usize, global_table_space: bool, n: usize) -> (r: Result<
    (Vec<ColSpec>, usize),
    DecodeError,
>)
    ensures
        match r {
            Ok((v, q)) => spec_col_specs(bytes@, pos as int, global_table_space, n as nat) == Ok::<
                (Seq<ColSpecModel>, int),
                DecodeError,
            >((col_specs_view(v@), q as int)),
            Err(e) => spec_col_specs(bytes@, pos as int, global_table_space, n as nat) == Err::<
                (Seq<ColSpecModel>, int),
                DecodeError,
            >(e),
        },
{
    let mut specs: Vec<ColSpec> = Vec::new();
    let mut p: usize = pos;
    let mut i: usize = 0;
    assert(col_specs_view(specs@) =~= Seq::<ColSpecModel>::empty());
    while i < n
        invariant
            i <= n,
            spec_col_specs(bytes@, pos as int, global_table_space, i as nat) == Ok::<
                (Seq<ColSpecModel>, int),
                DecodeError,
            >((col_specs_view(specs@), p as int)),
        decreases n - i,
    {
        match ColSpec::from_bytes(bytes, p, global_table_space) {
            Ok((c, q)) => {
                proof {
                    assert(col_specs_view(specs@.push(c)) =~= col_specs_view(specs@).push(c@));
                }
                specs.push(c);
                p = q;
            },
            Err(e) => {
                proof {
                    lemma_col_specs_err(bytes@, pos as int, global_table_space, (i + 1) as nat, n as nat);
                }
                return Err(e);
            },
        }
        i = i + 1;
    }
    Ok((specs, p))
}

/// The metadata block that precedes the rows of a result.
#[derive(Debug)]
pub struct RowsMetadata {
    /// The known flags of the block, in bit order.
    pub flags: Vec<RowsMetadataFlag>,
    pub columns_count: i32,
    /// Present exactly when the block has more pages.
    pub paging_state: Option<Vec<u8>>,
    /// The keyspace and table that every column belongs to, present exactly
    /// when the block has a global table space.
    pub global_table_space: Option<(String, String)>,
    /// Empty when the block has no metadata, else one spec per column.
    pub col_specs: Vec<ColSpec>,
}

/// What a `RowsMetadata` holds, over mathematical values.
pub ghost struct RowsMetadataModel {
    pub flags: Seq<RowsMetadataFlag>,
    pub columns_count: i32,
    pub paging_state: Option<Seq<u8>>,
    pub global_table_space: Option<(Seq<char>, Seq<char>)>,
    pub col_specs: Seq<ColSpecModel>,
}

pub open spec fn opt_pair(o: Option<(String, String)>) -> Option<(Seq<char>, Seq<char>)> {
    match o {
        Some((k, t)) => Some((k@, t@)),
        None => None,
    }
}

impl View for RowsMetadata {
    type V = RowsMetadataModel;

    open spec fn view(&self) -> RowsMetadataModel {
        RowsMetadataModel {
            flags: self.flags@,
            columns_count: self.columns_count,
            paging_state: opt_bytes(self.paging_state),
            global_table_space: opt_pair(self.global_table_space),
            col_specs: col_specs_view(self.col_specs@),
        }
    }
}

/// The shared keyspace and table names at `p`, when `present`.
pub open spec fn spec_global_table_space(b: Seq<u8>, p: int, present: bool) -> Parsed<
    Option<(Seq<char>, Seq<char>)>,
> {
    if !present {
        Ok((None, p))
    } else {
        match spec_string(b, p) {
            Err(e) => Err(e),
            Ok((ks, q)) => match spec_string(b, q) {
                Err(e) => Err(e),
                Ok((tb, r)) => Ok((Some((ks, tb)), r)),
            },
        }
    }
}

/// The paging state at `p`, when `present`.
pub open spec fn spec_paging_state(b: Seq<u8>, p: int, present: bool) -> Parsed<Option<Seq<u8>>> {
    if !present {
        Ok((None, p))
    } else {
        match spec_blob(b, p) {
            Err(e) => Err(e),
            Ok((v, q)) => Ok((Some(v), q)),
        }
    }
}

/// A metadata block at `p`: flags, column count, the global table space and
/// the paging state where the flags say so, then the column specs unless the
/// flags say there are none.
pub open spec fn spec_metadata(b: Seq<u8>, p: int) -> Parsed<RowsMetadataModel> {
    match spec_int(b, p) {
        Err(e) => Err(e),
        Ok((flags, q1)) => match spec_int(b, q1) {
            Err(e) => Err(e),
            Ok((count, q2)) => {
                if count < 0 {
                    Err(DecodeError::NegativeCount(count))
                } else {
                    let global = has_bit(flags, GLOBAL_TABLE_SPACE);
                    match spec_global_table_space(b, q2, global) {
                        Err(e) => Err(e),
                        Ok((gts, q3)) => match spec_paging_state(
                            b,
                            q3,
                            has_bit(flags, HAS_MORE_PAGES),
                        ) {
                            Err(e) => Err(e),
                            Ok((ps, q4)) => {
                                let specs = if has_bit(flags, NO_METADATA) {
                                    Ok((Seq::empty(), q4))
                                } else {
                                    spec_col_specs(b, q4, global, count as nat)
                                };
                                match specs {
                                    Err(e) => Err(e),
                                    Ok((cs, q5)) => Ok(
                                        (
                                            RowsMetadataModel {
                                                flags: flag_list(flags),
                                                columns_count: count,
                                                paging_state: ps,
                                                global_table_space: gts,
                                                col_specs: cs,
                                            },
                                            q5,
                                        ),
                                    ),
                                }
                            },
                        },
                    }
                }
            },
        },
    }
}

/// Decoded column specs: one per column, each with its own keyspace and
/// table names exactly when there is no global table space.
pub proof fn lemma_col_specs_shape(b: Seq<u8>, p: int, g: bool, n: nat)
    requires
        spec_col_specs(b, p, g, n) is Ok,
    ensures
        ({
            let cs = spec_col_specs(b, p, g, n)->Ok_0.0;
            &&& cs.len() == n
            &&& forall|i: int|
                0 <= i < cs.len() ==> (#[trigger] cs[i]).ksname is Some == !g
                    && cs[i].tablename is Some == !g
        }),
    decreases n,
{
    if n > 0 {
        lemma_col_specs_shape(b, p, g, (n - 1) as nat);
    }
}

/// What the flags of a decoded metadata block decide: the global table
/// space is there exactly when its bit is set, and then no column spec
/// carries its own keyspace or table name; the paging state is there exactly
/// when more pages are flagged; with no metadata flagged there are no column
/// specs, whatever the column count, and otherwise one per column.
pub proof fn lemma_metadata_flags(b: Seq<u8>, p: int)
    requires
        spec_metadata(b, p) is Ok,
    ensures
        ({
            let flags = spec_int(b, p)->Ok_0.0;
            let m = spec_metadata(b, p)->Ok_0.0;
            &&& m.global_table_space is Some == has_bit(flags, GLOBAL_TABLE_SPACE)
            &&& m.paging_state is Some == has_bit(flags, HAS_MORE_PAGES)
            &&& has_bit(flags, NO_METADATA) ==> m.col_specs.len() == 0
            &&& !has_bit(flags, NO_METADATA) ==> m.col_specs.len() == m.columns_count
            &&& forall|i: int|
                0 <= i < m.col_specs.len() ==> (#[trigger] m.col_specs[i]).ksname is Some
                    == !has_bit(flags, GLOBAL_TABLE_SPACE) && m.col_specs[i].tablename is Some
                    == !has_bit(flags, GLOBAL_TABLE_SPACE)
        }),
{
    let flags = spec_int(b, p)->Ok_0.0;
    let q1 = spec_int(b, p)->Ok_0.1;
    let count = spec_int(b, q1)->Ok_0.0;
    let q2 = spec_int(b, q1)->Ok_0.1;
    let global = has_bit(flags, GLOBAL_TABLE_SPACE);
    let q3 = spec_global_table_space(b, q2, global)->Ok_0.1;
    let q4 = spec_paging_state(b, q3, has_bit(flags, HAS_MORE_PAGES))->Ok_0.1;
    if !has_bit(flags, NO_METADATA) {
        lemma_col_specs_shape(b, q4, global, count as nat);
    }
}

pub open spec fn metadata_at(r: Result<(RowsMetadata, usize), DecodeError>) -> Parsed<
    RowsMetadataModel,
> {
    match r {
        Ok((m, q)) => Ok((m@, q as int)),
        Err(e) => Err(e),
    }
}

fn read_global_table_space(bytes: &[u8], pos: usize, present: bool) -> (r: Result<
    (Option<(String, String)>, usize),
    DecodeError,
>)
    ensures
        match r {
            Ok((v, q)) => spec_global_table_space(bytes@, pos as int, present) == Ok::<
                (Option<(Seq<char>, Seq<char>)>, int),
                DecodeError,
            >((opt_pair(v), q as int)),
            Err(e) => spec_global_table_space(bytes@, pos as int, present) == Err::<
                (Option<(Seq<char>, Seq<char>)>, int),
                DecodeError,
            >(e),
        },
{
    if !present {
        return Ok((None, pos));
    }
    let (ks, q) = match read_string(bytes, pos) {
        Ok(x) => x,
        Err(e) => return Err(e),
    };
    let (tb, r) = match read_string(bytes, q) {
        Ok(x) => x,
        Err(e) => return Err(e),
    };
    Ok((Some((ks, tb)), r))
}

fn read_paging_state(bytes: &[u8], pos: usize, present: bool) -> (r: Result<
    (Option<Vec<u8>>, usize),
    DecodeError,
>)
    ensures
        value_at(r) == spec_paging_state(bytes@, pos as int, present),
{
    if !present {
        return Ok((None, pos));
    }
    match read_blob(bytes, pos) {
        Ok((v, q)) => Ok((Some(v), q)),
        Err(e) => Err(e),
    }
}

impl RowsMetadata {
    /// Reads a metadata block at `pos`.
    pub fn from_bytes(bytes: &[u8], pos: usize) -> (r: Result<(RowsMetadata, usize), DecodeError>)
        ensures
            metadata_at(r) == spec_metadata(bytes@, pos as int),
    {
        let (flags, q1) = match read_int(bytes, pos) {
            Ok(x) => x,
            Err(e) => return Err(e),
        };
        let (columns_count, q2) = match read_int(bytes, q1) {
            Ok(x) => x,
            Err(e) => return Err(e),
        };
        if columns_count < 0 {
            return Err(DecodeError::NegativeCount(columns_count));
        }
        let global = RowsMetadataFlag::has_global_table_space(flags);
        let (global_table_space, q3) = match read_global_table_space(bytes, q2, global) {
            Ok(x) => x,
            Err(e) => return Err(e),
        };
        let (paging_state, q4) = match read_paging_state(
            bytes,
            q3,
            RowsMetadataFlag::has_has_more_pages(flags),
        ) {
            Ok(x) => x,
            Err(e) => return Err(e),
        };
        let (col_specs, q5) = if RowsMetadataFlag::has_no_metadata(flags) {
            let empty: Vec<ColSpec> = Vec::new();
            assert(col_specs_view(empty@) =~= Seq::<ColSpecModel>::empty());
            (empty, q4)
        } else {
            match read_col_specs(bytes, q4, global, columns_count as usize) {
                Ok(x) => x,
                Err(e) => return Err(e),
            }
        };
        let flag_vec = RowsMetadataFlag::flags_from_int(flags);
        Ok(
            (
                RowsMetadata {
                    flags: flag_vec,
                    columns_count,
                    paging_state,
                    global_table_space,
                    col_specs,
                },
                q5,
            ),
        )
    }
}

/// A cell as the model sees it: the raw bytes, or `None` for null.
pub type CellModel = Option<Seq<u8>>;

/// `n` cell values, one after the other, from `p`.
pub open spec fn spec_row(b: Seq<u8>, p: int, n: nat) -> Parsed<Seq<CellModel>>
    decreases n,
{
    if n == 0 {
        Ok((Seq::empty(), p))
    } else {
        match spec_row(b, p, (n - 1) as nat) {
            Err(e) => Err(e),
            Ok((s, q)) => match spec_value(b, q) {
                Err(e) => Err(e),
                Ok((c, r)) => Ok((s.push(c), r)),
            },
        }
    }
}

/// `m` rows of `n` cells each, from `p`.
pub open spec fn spec_rows(b: Seq<u8>, p: int, m: nat, n: nat) -> Parsed<Seq<Seq<CellModel>>>
    decreases m,
{
    if m == 0 {
        Ok((Seq::empty(), p))
    } else {
        match spec_rows(b, p, (m - 1) as nat, n) {
            Err(e) => Err(e),
            Ok((s, q)) => match spec_row(b, q, n) {
                Err(e) => Err(e),
                Ok((row, r)) => Ok((s.push(row), r)),
            },
        }
    }
}

/// What a `BodyResResultRows` holds, over mathematical values.
pub ghost struct ResultRowsModel {
    pub metadata: RowsMetadataModel,
    pub rows_count: i32,
    pub rows_content: Seq<Seq<CellModel>>,
}

/// The rows that follow a metadata block with `columns_count` columns:
/// the row count, then the cells row by row. A negative column count is
/// refused before anything is read.
pub open spec fn spec_rows_body(b: Seq<u8>, p: int, metadata: RowsMetadataModel) -> Parsed<
    ResultRowsModel,
> {
    if metadata.columns_count < 0 {
        Err(DecodeError::NegativeCount(metadata.columns_count))
    } else {
        match spec_int(b, p) {
            Err(e) => Err(e),
            Ok((count, q)) => {
                if count < 0 {
                    Err(DecodeError::NegativeCount(count))
                } else {
                    match spec_rows(b, q, count as nat, metadata.columns_count as nat) {
                        Err(e) => Err(e),
                        Ok((rows, r)) => Ok(
                            (ResultRowsModel { metadata, rows_count: count, rows_content: rows }, r),
                        ),
                    }
                }
            },
        }
    }
}

/// A whole rows-result body at `p`: the metadata block, then the rows.
pub open spec fn spec_result_rows(b: Seq<u8>, p: int) -> Parsed<ResultRowsModel> {
    match spec_metadata(b, p) {
        Err(e) => Err(e),
        Ok((m, q)) => spec_rows_body(b, q, m),
    }
}

pub open spec fn row_view(row: Vec<Option<Vec<u8>>>) -> Seq<CellModel> {
    row@.map_values(|c: Option<Vec<u8>>| opt_bytes(c))
}

pub open spec fn rows_view(rows: Seq<Vec<Option<Vec<u8>>>>) -> Seq<Seq<CellModel>> {
    rows.map_values(|row: Vec<Option<Vec<u8>>>| row_view(row))
}

/// Once reading cells has failed, reading more fails the same way.
pub proof fn lemma_row_err(b: Seq<u8>, p: int, i: nat, n: nat)
    requires
        i <= n,
        spec_row(b, p, i) is Err,
    ensures
        spec_row(b, p, n) == spec_row(b, p, i),
    decreases n,
{
    if n > i {
        lemma_row_err(b, p, i, (n - 1) as nat);
    }
}

/// Once reading rows has failed, reading more fails the same way.
pub proof fn lemma_rows_err(b: Seq<u8>, p: int, i: nat, m: nat, n: nat)
    requires
        i <= m,
        spec_rows(b, p, i, n) is Err,
    ensures
        spec_rows(b, p, m, n) == spec_rows(b, p, i, n),
    decreases m,
{
    if m > i {
        lemma_rows_err(b, p, i, (m - 1) as nat, n);
    }
}

/// Reads `n` cell values from `pos`.
fn read_row(bytes: &[u8], pos: usize, n: usize) -> (r: Result<
    (Vec<Option<Vec<u8>>>, usize),
    DecodeError,
>)
    ensures
        match r {
            Ok((v, q)) => spec_row(bytes@, pos as int, n as nat) == Ok::<
                (Seq<CellModel>, int),
                DecodeError,
            >((row_view(v), q as int)),
            Err(e) => spec_row(bytes@, pos as int, n as nat) == Err::<
                (Seq<CellModel>, int),
                DecodeError,
            >(e),
        },
{
    let mut row: Vec<Option<Vec<u8>>> = Vec::new();
    let mut p: usize = pos;
    let mut i: usize = 0;
    assert(row_view(row) =~= Seq::<CellModel>::empty());
    while i < n
        invariant
            i <= n,
            spec_row(bytes@, pos as int, i as nat) == Ok::<(Seq<CellModel>, int), DecodeError>(
                (row_view(row), p as int),
            ),
        decreases n - i,
    {
        match read_value(bytes, p) {
            Ok((c, q)) => {
                let ghost before = row;
                row.push(c);
                proof {
                    assert(row_view(row) =~= row_view(before).push(opt_bytes(c)));
                }
                p = q;
            },
            Err(e) => {
                proof {
                    lemma_row_err(bytes@, pos as int, (i + 1) as nat, n as nat);
                }
                return Err(e);
            },
        }
        i = i + 1;
    }
    Ok((row, p))
}

/// Reads `m` rows of `n` cells each from `pos`.
fn read_rows(bytes: &[u8], pos: usize, m: usize, n: usize) -> (r: Result<
    (Vec<Vec<Option<Vec<u8>>>>, usize),
    DecodeError,
>)
    ensures
        match r {
            Ok((v, q)) => spec_rows(bytes@, pos as int, m as nat, n as nat) == Ok::<
                (Seq<Seq<CellModel>>, int),
                DecodeError,
            >((rows_view(v@), q as int)),
            Err(e) => spec_rows(bytes@, pos as int, m as nat, n as nat) == Err::<
                (Seq<Seq<CellModel>>, int),
                DecodeError,
            >(e),
        },
{
    let mut rows: Vec<Vec<Option<Vec<u8>>>> = Vec::new();
    let mut p: usize = pos;
    let mut i: usize = 0;
    assert(rows_view(rows@) =~= Seq::<Seq<CellModel>>::empty());
    while i < m
        invariant
            i <= m,
            spec_rows(bytes@, pos as int, i as nat, n as nat) == Ok::<
                (Seq<Seq<CellModel>>, int),
                DecodeError,
            >((rows_view(rows@), p as int)),
        decreases m - i,
    {
        match read_row(bytes, p, n) {
            Ok((row, q)) => {
                proof {
                    assert(rows_view(rows@.push(row)) =~= rows_view(rows@).push(row_view(row)));
                }
                rows.push(row);
                p = q;
            },
            Err(e) => {
                proof {
                    lemma_rows_err(bytes@, pos as int, (i + 1) as nat, m as nat, n as nat);
                }
                return Err(e);
            },
        }
        i = i + 1;
    }
    Ok((rows, p))
}

proof fn lemma_col_spec_tail_cut(
    b: Seq<u8>,
    p: int,
    k: int,
    ks: Option<Seq<char>>,
    tb: Option<Seq<char>>,
)
    requires
        0 <= k <= b.len(),
    ensures
        cut_result(
            spec_col_spec_tail(b, p, ks, tb),
            spec_col_spec_tail(b.subrange(0, k), p, ks, tb),
            p,
            k,
        ),
{
    lemma_string_cut(b, p, k);
    if let Ok((_, q)) = spec_string(b, p) {
        lemma_short_cut(b, q, k);
    }
}

proof fn lemma_col_spec_cut(b: Seq<u8>, p: int, g: bool, k: int)
    requires
        0 <= k <= b.len(),
    ensures
        cut_result(spec_col_spec(b, p, g), spec_col_spec(b.subrange(0, k), p, g), p, k),
{
    if g {
        lemma_col_spec_tail_cut(b, p, k, None, None);
    } else {
        lemma_string_cut(b, p, k);
        if let Ok((ks, q)) = spec_string(b, p) {
            lemma_string_cut(b, q, k);
            if let Ok((tb, r)) = spec_string(b, q) {
                lemma_col_spec_tail_cut(b, r, k, Some(ks), Some(tb));
            }
        }
    }
}

proof fn lemma_col_specs_cut(b: Seq<u8>, p: int, g: bool, n: nat, k: int)
    requires
        0 <= k <= b.len(),
    ensures
        cut_result(spec_col_specs(b, p, g, n), spec_col_specs(b.subrange(0, k), p, g, n), p, k),
    decreases n,
{
    if n > 0 {
        lemma_col_specs_cut(b, p, g, (n - 1) as nat, k);
        if let Ok((_, q)) = spec_col_specs(b, p, g, (n - 1) as nat) {
            lemma_col_spec_cut(b, q, g, k);
        }
    }
}

proof fn lemma_metadata_cut(b: Seq<u8>, p: int, k: int)
    requires
        0 <= k <= b.len(),
    ensures
        cut_result(spec_metadata(b, p), spec_metadata(b.subrange(0, k), p), p, k),
{
    let c = b.subrange(0, k);
    lemma_int_cut(b, p, k);
    if let Ok((flags, q1)) = spec_int(b, p) {
        lemma_int_cut(b, q1, k);
        if let Ok((count, q2)) = spec_int(b, q1) {
            let global = has_bit(flags, GLOBAL_TABLE_SPACE);
            lemma_string_cut(b, q2, k);
            if let Ok((_, r)) = spec_string(b, q2) {
                lemma_string_cut(b, r, k);
            }
            if let Ok((_, q3)) = spec_global_table_space(b, q2, global) {
                lemma_blob_cut(b, q3, k);
                if let Ok((_, q4)) = spec_paging_state(b, q3, has_bit(flags, HAS_MORE_PAGES)) {
                    if count >= 0 {
                        lemma_col_specs_cut(b, q4, global, count as nat, k);
                    }
                }
            }
        }
    }
}

proof fn lemma_row_cut(b: Seq<u8>, p: int, n: nat, k: int)
    requires
        0 <= k <= b.len(),
    ensures
        cut_result(spec_row(b, p, n), spec_row(b.subrange(0, k), p, n), p, k),
    decreases n,
{
    if n > 0 {
        lemma_row_cut(b, p, (n - 1) as nat, k);
        if let Ok((_, q)) = spec_row(b, p, (n - 1) as nat) {
            lemma_value_cut(b, q, k);
        }
    }
}

proof fn lemma_rows_cut(b: Seq<u8>, p: int, m: nat, n: nat, k: int)
    requires
        0 <= k <= b.len(),
    ensures
        cut_result(spec_rows(b, p, m, n), spec_rows(b.subrange(0, k), p, m, n), p, k),
    decreases m,
{
    if m > 0 {
        lemma_rows_cut(b, p, (m - 1) as nat, n, k);
        if let Ok((_, q)) = spec_rows(b, p, (m - 1) as nat, n) {
            lemma_row_cut(b, q, n, k);
        }
    }
}

proof fn lemma_rows_body_cut(b: Seq<u8>, p: int, m: RowsMetadataModel, k: int)
    requires
        0 <= k <= b.len(),
    ensures
        cut_result(spec_rows_body(b, p, m), spec_rows_body(b.subrange(0, k), p, m), p, k),
{
    lemma_int_cut(b, p, k);
    if let Ok((count, q)) = spec_int(b, p) {
        if count >= 0 {
            lemma_rows_cut(b, q, count as nat, m.columns_count as nat, k);
        }
    }
}

/// A buffer cut short of the end of a value that decodes reports
/// `Truncated`, never a partial value, for each decoder: a column spec, a
/// metadata block, the rows after a metadata block, and a whole rows body.
pub proof fn lemma_truncated(b: Seq<u8>, p: int, k: int, g: bool, m: RowsMetadataModel)
    requires
        0 <= p <= k <= b.len(),
    ensures
        spec_col_spec(b, p, g) matches Ok((_, q)) && k < q ==> spec_col_spec(b.subrange(0, k), p, g)
            == Err::<(ColSpecModel, int), DecodeError>(DecodeError::Truncated),
        spec_metadata(b, p) matches Ok((_, q)) && k < q ==> spec_metadata(b.subrange(0, k), p)
            == Err::<(RowsMetadataModel, int), DecodeError>(DecodeError::Truncated),
        spec_rows_body(b, p, m) matches Ok((_, q)) && k < q ==> spec_rows_body(
            b.subrange(0, k),
            p,
            m,
        ) == Err::<(ResultRowsModel, int), DecodeError>(DecodeError::Truncated),
        spec_result_rows(b, p) matches Ok((_, q)) && k < q ==> spec_result_rows(
            b.subrange(0, k),
            p,
        ) == Err::<(ResultRowsModel, int), DecodeError>(DecodeError::Truncated),
{
    lemma_col_spec_cut(b, p, g, k);
    lemma_metadata_cut(b, p, k);
    lemma_rows_body_cut(b, p, m, k);
    if let Ok((md, q)) = spec_metadata(b, p) {
        lemma_rows_body_cut(b, q, md, k);
    }
}

/// The body of a rows result.
#[derive(Debug)]
pub struct BodyResResultRows {
    pub metadata: RowsMetadata,
    pub rows_count: i32,
    /// `rows_count` rows, each with one cell per column in wire order; a
    /// cell holds the value's raw bytes, or `None` for null.
    pub rows_content: Vec<Vec<Option<Vec<u8>>>>,
}

impl View for BodyResResultRows {
    type V = ResultRowsModel;

    open spec fn view(&self) -> ResultRowsModel {
        ResultRowsModel {
            metadata: self.metadata@,
            rows_count: self.rows_count,
            rows_content: rows_view(self.rows_content@),
        }
    }
}

pub open spec fn result_rows_at(r: Result<(BodyResResultRows, usize), DecodeError>) -> Parsed<
    ResultRowsModel,
> {
    match r {
        Ok((v, q)) => Ok((v@, q as int)),
        Err(e) => Err(e),
    }
}

impl BodyResResultRows {
    /// Reads the rows that follow `metadata`, starting at `pos`.
    pub fn from_metadata(metadata: RowsMetadata, bytes: &[u8], pos: usize) -> (r: Result<
        (BodyResResultRows, usize),
        DecodeError,
    >)
        ensures
            result_rows_at(r) == spec_rows_body(bytes@, pos as int, metadata@),
    {
        if metadata.columns_count < 0 {
            return Err(DecodeError::NegativeCount(metadata.columns_count));
        }
        let (rows_count, q) = match read_int(bytes, pos) {
            Ok(x) => x,
            Err(e) => return Err(e),
        };
        if rows_count < 0 {
            return Err(DecodeError::NegativeCount(rows_count));
        }
        let columns = metadata.columns_count as usize;
        let (rows_content, r) = match read_rows(bytes, q, rows_count as usize, columns) {
            Ok(x) => x,
            Err(e) => return Err(e),
        };
        Ok((BodyResResultRows { metadata, rows_count, rows_content }, r))
    }

    /// Reads a whole rows-result body at `pos`.
    pub fn from_bytes(bytes: &[u8], pos: usize) -> (r: Result<
        (BodyResResultRows, usize),
        DecodeError,
    >)
        ensures
            result_rows_at(r) == spec_result_rows(bytes@, pos as int),
    {
        match RowsMetadata::from_bytes(bytes, pos) {
            Ok((metadata, q)) => Self::from_metadata(metadata, bytes, q),
            Err(e) => Err(e),
        }
    }
}

} // verus!

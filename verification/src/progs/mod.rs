//! The QuakeC virtual machine: identifiers, definitions and the memory of its globals.

pub mod globals;
pub mod ops;

use vstd::prelude::*;
use vstd::utf8::{decode_utf8, valid_utf8};
use crate::util::{find_nul, find_nul_from, lemma_find_nul, string_from_utf8};

verus! {

/// An error of the virtual machine.
#[derive(Debug)]
pub enum ProgsError {
    /// Reading the program failed.
    Io,
    /// Any other failure, with its message.
    Other(String),
}

impl ProgsError {
    /// An error of kind `Other` with the given message.
    pub fn with_msg(msg: &str) -> (r: ProgsError)
        ensures
            r matches ProgsError::Other(m) && m@ == msg@,
    {
        ProgsError::Other(msg.to_owned())
    }
}

/// The offset of a string in the string table.
#[derive(Copy, Clone, Debug, Default, PartialEq, Eq, Structural)]
pub struct StringId(pub i32);

/// The number of an entity.
#[derive(Copy, Clone, Debug, Default, PartialEq, Eq, Structural)]
pub struct EntityId(pub i32);

/// The address of a field within an entity.
#[derive(Copy, Clone, Debug, Default, PartialEq, Eq, Structural)]
pub struct FieldAddr(pub i32);

/// The number of a function.
#[derive(Copy, Clone, Debug, Default, PartialEq, Eq, Structural)]
pub struct FunctionId(pub i32);

/// A field of a given entity.
#[derive(Copy, Clone, Debug, Default, PartialEq, Eq, Structural)]
pub struct EntityFieldAddr {
    pub entity_id: usize,
    pub field_addr: usize,
}

/// The type of a global or a field.
#[derive(Copy, Clone, Debug, PartialEq, Eq, Structural)]
pub enum Type {
    QVoid,
    QString,
    QFloat,
    QVector,
    QEntity,
    QField,
    QFunction,
    QPointer,
}

impl Type {
    /// The number of a type in a program file.
    pub open spec fn spec_code(self) -> u16 {
        match self {
            Type::QVoid => 0,
            Type::QString => 1,
            Type::QFloat => 2,
            Type::QVector => 3,
            Type::QEntity => 4,
            Type::QField => 5,
            Type::QFunction => 6,
            Type::QPointer => 7,
        }
    }

    /// The type with the given number, if there is one.
    pub fn from_u16(v: u16) -> (r: Option<Type>)
        ensures
            match r {
                Some(t) => t.spec_code() == v,
                None => v > 7,
            },
    {
        match v {
            0 => Some(Type::QVoid),
            1 => Some(Type::QString),
            2 => Some(Type::QFloat),
            3 => Some(Type::QVector),
            4 => Some(Type::QEntity),
            5 => Some(Type::QField),
            6 => Some(Type::QFunction),
            7 => Some(Type::QPointer),
            _ => None,
        }
    }
}

/// The definition of a global: its type, its address, and whether it is saved with a game.
#[derive(Copy, Clone, Debug, PartialEq, Eq, Structural)]
pub struct GlobalDef {
    pub save: bool,
    pub type_: Type,
    pub offset: u16,
    pub name_ofs: i32,
}

/// The definition of a field of entities: its type and its address within an entity.
#[derive(Copy, Clone, Debug, PartialEq, Eq, Structural)]
pub struct FieldDef {
    pub type_: Type,
    pub offset: u16,
    pub name_ofs: i32,
}

/// The largest number of arguments of a function.
pub const MAX_ARGS: usize = 8;

/// A statement of a program: an operation, by its number, with three operands.
#[derive(Copy, Clone, Debug, PartialEq, Eq, Structural)]
pub struct Statement {
    pub opcode: i16,
    pub arg1: i16,
    pub arg2: i16,
    pub arg3: i16,
}

/// Where a function's code is: built into the engine, by number, or QuakeC starting at a
/// statement.
#[derive(Copy, Clone, Debug, PartialEq, Eq, Structural)]
pub enum FunctionKind {
    BuiltIn(usize),
    QuakeC(usize),
}

/// A function of a program: its code, where its arguments and locals lie among the globals,
/// its name and source file in the string table, and the size of each argument.
#[derive(Copy, Clone, Debug)]
pub struct Function {
    pub kind: FunctionKind,
    pub arg_start: usize,
    pub locals: usize,
    pub name_ofs: i32,
    pub srcfile_ofs: i32,
    pub argc: usize,
    pub argsz: [u8; MAX_ARGS],
}

/// A QuakeC program: its functions, its statements and its string table.
pub struct Progs {
    functions: Vec<Function>,
    statements: Vec<Statement>,
    strings: Vec<u8>,
}

/// Whether the string at `ofs` of the string table `s` can be read: it ends with a zero byte
/// and is UTF-8.
pub open spec fn string_readable(s: Seq<u8>, ofs: int) -> bool {
    find_nul(s, ofs) matches Some(z) && valid_utf8(s.subrange(ofs, z))
}

impl Progs {
    /// The functions.
    pub closed spec fn functions(&self) -> Seq<Function> {
        self.functions@
    }

    /// The statements.
    pub closed spec fn statements(&self) -> Seq<Statement> {
        self.statements@
    }

    /// The string table.
    pub closed spec fn strings(&self) -> Seq<u8> {
        self.strings@
    }

    /// A program with the given functions, statements and string table.
    pub fn new(functions: Vec<Function>, statements: Vec<Statement>, strings: Vec<u8>) -> (r: Progs)
        ensures
            r.functions() == functions@,
            r.statements() == statements@,
            r.strings() == strings@,
    {
        Progs { functions, statements, strings }
    }

    /// Starts running a function, which must exist; the first statement to run is given.
    pub fn enter_function(&mut self, function_id: FunctionId) -> (r: usize)
        requires
            0 <= function_id.0 < old(self).functions().len(),
        ensures
            r == 0,
            final(self).functions() == old(self).functions(),
            final(self).statements() == old(self).statements(),
            final(self).strings() == old(self).strings(),
    {
        let _function = &self.functions[function_id.0 as usize];
        0
    }

    /// The string at offset `ofs` of the string table: the bytes up to the next zero byte. A
    /// negative offset, or one past the end of the table, is an error; where the table holds a
    /// string at the offset, it must end with a zero byte and be UTF-8.
    pub fn get_string_as_str(&self, ofs: i32) -> (r: Result<String, ProgsError>)
        requires
            0 <= ofs <= self.strings().len() ==> string_readable(self.strings(), ofs as int),
        ensures
            r is Err <==> ofs < 0 || ofs > self.strings().len(),
            r is Err ==> r matches Err(ProgsError::Other(_)),
            r matches Ok(t) ==> t@ == decode_utf8(
                self.strings().subrange(ofs as int, find_nul(self.strings(), ofs as int)->0),
            ),
    {
        if ofs < 0 {
            return Err(ProgsError::with_msg("get_string_as_str: negative string offset"));
        }
        let start = ofs as usize;
        if start > self.strings.len() {
            return Err(ProgsError::with_msg("get_string_as_str: out-of-bounds string offset"));
        }
        proof {
            lemma_find_nul(self.strings@, start as int);
        }
        let end = match find_nul_from(self.strings.as_slice(), start) {
            Some(z) => z,
            None => start,
        };
        let bytes = vstd::slice::slice_to_vec(vstd::slice::slice_subrange(self.strings.as_slice(), start, end));
        match string_from_utf8(bytes) {
            Ok(t) => Ok(t),
            Err(_) => Ok(String::new()),
        }
    }
}

} // verus!

//! The parts of a command and of a reply that value compression reads.

use vstd::prelude::*;

verus! {

/// The string commands that compression tells apart; every other command is
/// `Others`.
#[derive(Debug, PartialEq, Eq, Structural, Clone, Copy)]
pub enum DataCmdType {
    APPEND,
    BITCOUNT,
    BITFIELD,
    BITOP,
    BITPOS,
    DECR,
    DECRBY,
    GET,
    GETBIT,
    GETRANGE,
    GETSET,
    INCR,
    INCRBY,
    INCRBYFLOAT,
    MGET,
    MSET,
    MSETNX,
    PSETEX,
    SET,
    SETBIT,
    SETEX,
    SETNX,
    SETRANGE,
    STRLEN,
    Others,
}

/// A command on its way to a backend: its kind and its elements, the command
/// name first.
pub struct CmdCtx {
    cmd_type: DataCmdType,
    elements: Vec<Vec<u8>>,
}

impl CmdCtx {
    /// The kind of the command.
    pub closed spec fn cmd_type(&self) -> DataCmdType {
        self.cmd_type
    }

    /// The elements of the command, each as its bytes.
    pub closed spec fn view(&self) -> Seq<Seq<u8>> {
        Seq::new(self.elements@.len(), |i: int| self.elements@[i]@)
    }

    /// A command of kind `cmd_type` made of `elements`.
    pub fn new(cmd_type: DataCmdType, elements: Vec<Vec<u8>>) -> (r: Self)
        ensures
            r.cmd_type() == cmd_type,
            r@ == Seq::new(elements@.len(), |i: int| elements@[i]@),
    {
        CmdCtx { cmd_type, elements }
    }

    /// The kind of the command.
    pub fn get_data_cmd_type(&self) -> (r: DataCmdType)
        ensures
            r == self.cmd_type(),
    {
        self.cmd_type
    }

    /// The element at `index`, if the command has that many.
    pub fn get_command_element(&self, index: usize) -> (r: Option<&Vec<u8>>)
        ensures
            match r {
                Some(e) => index < self@.len() && e@ == self@[index as int],
                None => index >= self@.len(),
            },
    {
        if index < self.elements.len() {
            Some(&self.elements[index])
        } else {
            None
        }
    }

    /// Replaces the element at `index` by `data`; returns `false`, and
    /// changes nothing, if the command has no such element.
    pub fn change_cmd_element(&mut self, index: usize, data: Vec<u8>) -> (r: bool)
        ensures
            final(self).cmd_type() == old(self).cmd_type(),
            r == (index < old(self)@.len()),
            r ==> final(self)@ == old(self)@.update(index as int, data@),
            !r ==> final(self)@ == old(self)@,
    {
        if index < self.elements.len() {
            self.elements.set(index, data);
            proof {
                assert(self@ =~= old(self)@.update(index as int, data@));
            }
            true
        } else {
            false
        }
    }
}

/// A bulk string of a reply: bytes, or the nil bulk string.
#[derive(Debug)]
pub enum BulkStr {
    Str(Vec<u8>),
    Nil,
}

/// A reply from a backend, as far as compression tells replies apart.
#[derive(Debug)]
pub enum Resp {
    Error(Vec<u8>),
    Simple(Vec<u8>),
    Bulk(BulkStr),
    Integer(Vec<u8>),
}

impl Resp {
    /// The bytes of a non-nil bulk string reply; `None` for any other reply.
    pub open spec fn bulk_bytes(&self) -> Option<Seq<u8>> {
        match self {
            Resp::Bulk(BulkStr::Str(s)) => Some(s@),
            _ => None,
        }
    }

    /// Replaces the bytes of a non-nil bulk string reply by `data`; returns
    /// `false`, and changes nothing, for any other reply.
    pub fn change_bulk_str(&mut self, data: Vec<u8>) -> (r: bool)
        ensures
            r == (old(self).bulk_bytes() is Some),
            r ==> *final(self) == Resp::Bulk(BulkStr::Str(data)),
            !r ==> *final(self) == *old(self),
    {
        let is_bulk: bool = match self {
            Resp::Bulk(BulkStr::Str(_)) => true,
            _ => false,
        };
        if is_bulk {
            *self = Resp::Bulk(BulkStr::Str(data));
        }
        is_bulk
    }
}

} // verus!

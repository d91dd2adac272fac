//! Login-time proto messages with their compact field codec: a writer
//! that appends fields to a buffer and a reader that consumes them.

use crate::serializer::{
    read_bool, read_string, spec_bool_bytes, spec_parse_bool, spec_parse_string, spec_string_bytes,
    write_bool, write_string,
};
use vstd::prelude::*;

verus! {

/// Accumulates encoded fields.
pub struct BytesWriter {
    pub buf: Vec<u8>,
}

impl BytesWriter {
    /// An empty buffer.
    pub fn new() -> (r: BytesWriter)
        ensures
            r.buf@ == Seq::<u8>::empty(),
    {
        BytesWriter { buf: Vec::new() }
    }

    /// Appends a string field.
    pub fn write_string(&mut self, s: &str)
        ensures
            final(self).buf@ == old(self).buf@ + spec_string_bytes(s@),
    {
        write_string(&mut self.buf, s);
    }

    /// Appends a boolean field.
    pub fn write_bool(&mut self, b: bool)
        ensures
            final(self).buf@ == old(self).buf@ + spec_bool_bytes(b),
    {
        write_bool(&mut self.buf, b);
    }
}

/// Consumes encoded fields from the front of a buffer.
pub struct BytesReader {
    buf: Vec<u8>,
    pos: usize,
}

impl BytesReader {
    /// The bytes being read.
    pub closed spec fn spec_buf(&self) -> Seq<u8> {
        self.buf@
    }

    /// The read position.
    pub closed spec fn spec_pos(&self) -> int {
        self.pos as int
    }

    /// A reader over the given bytes.
    pub fn new(buf: Vec<u8>) -> (r: BytesReader)
        ensures
            r.spec_buf() == buf@,
            r.spec_pos() == 0,
    {
        BytesReader { buf, pos: 0 }
    }

    /// Reads a string field, exactly as the specification parser.
    pub fn read_string(&mut self) -> (r: Option<String>)
        ensures
            final(self).spec_buf() == old(self).spec_buf(),
            match r {
                Some(s) => spec_parse_string(old(self).spec_buf(), old(self).spec_pos()) == Some(
                    (s@, final(self).spec_pos()),
                ),
                None => spec_parse_string(old(self).spec_buf(), old(self).spec_pos()) is None
                    && final(self).spec_pos() == old(self).spec_pos(),
            },
    {
        match read_string(&self.buf, self.pos) {
            Some((s, end)) => {
                self.pos = end;
                Some(s)
            },
            None => None,
        }
    }

    /// Reads a boolean field, exactly as the specification parser.
    pub fn read_bool(&mut self) -> (r: Option<bool>)
        ensures
            final(self).spec_buf() == old(self).spec_buf(),
            match r {
                Some(b) => spec_parse_bool(old(self).spec_buf(), old(self).spec_pos()) == Some(
                    (b, final(self).spec_pos()),
                ),
                None => spec_parse_bool(old(self).spec_buf(), old(self).spec_pos()) is None
                    && final(self).spec_pos() == old(self).spec_pos(),
            },
    {
        match read_bool(&self.buf, self.pos) {
            Some((b, end)) => {
                self.pos = end;
                Some(b)
            },
            None => None,
        }
    }
}

/// A request for the distribution of a device ID on login.
#[derive(Debug, PartialEq, Eq, Clone)]
pub struct DeviceIDDistributionReq {
    pub offer_device_id: String,
}

impl DeviceIDDistributionReq {
    /// The message's wire opcode.
    pub fn opcode(&self) -> (r: u16)
        ensures
            r == 1,
    {
        1
    }

    /// Appends the message's fields.
    pub fn encode(&self, writer: &mut BytesWriter)
        ensures
            final(writer).buf@ == old(writer).buf@ + spec_string_bytes(self.offer_device_id@),
    {
        writer.write_string(self.offer_device_id.as_str());
    }

    /// Replaces this message's fields with those read from the buffer.
    pub fn decode(&mut self, buf: Vec<u8>) -> (r: Result<(), ()>)
        ensures
            match r {
                Ok(()) => spec_parse_string(buf@, 0) matches Some((s, _)) && final(self).offer_device_id@ == s,
                Err(()) => spec_parse_string(buf@, 0) is None && *final(self) == *old(self),
            },
    {
        let mut reader = BytesReader::new(buf);
        match reader.read_string() {
            Some(s) => {
                self.offer_device_id = s;
                Ok(())
            },
            None => Err(()),
        }
    }
}

/// The answer: whether a device ID is granted.
#[derive(Debug, PartialEq, Eq, Clone)]
pub struct DeviceIDDistributionResp {
    pub agree: bool,
}

impl DeviceIDDistributionResp {
    /// The message's wire opcode.
    pub fn opcode(&self) -> (r: u16)
        ensures
            r == 2,
    {
        2
    }

    /// Appends the message's fields.
    pub fn encode(&self, writer: &mut BytesWriter)
        ensures
            final(writer).buf@ == old(writer).buf@ + spec_bool_bytes(self.agree),
    {
        writer.write_bool(self.agree);
    }

    /// Replaces this message's fields with those read from the buffer.
    pub fn decode(&mut self, buf: Vec<u8>) -> (r: Result<(), ()>)
        ensures
            match r {
                Ok(()) => spec_parse_bool(buf@, 0) matches Some((b, _)) && final(self).agree == b,
                Err(()) => spec_parse_bool(buf@, 0) is None && *final(self) == *old(self),
            },
    {
        let mut reader = BytesReader::new(buf);
        match reader.read_bool() {
            Some(b) => {
                self.agree = b;
                Ok(())
            },
            None => Err(()),
        }
    }
}

} // verus!

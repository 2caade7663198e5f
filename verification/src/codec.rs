//! The durable form of an action: a record of plain values, and its bytes.

use vstd::prelude::*;
use crate::metadata::texts;

verus! {

/// The description of one action: its name, and its fields as texts, signed
/// numbers and sizes.
#[derive(Debug)]
pub struct ActionRecord {
    pub name: String,
    pub texts: Vec<String>,
    pub numbers: Vec<i64>,
    pub sizes: Vec<u64>,
}

/// An `ActionRecord` as a mathematical value.
pub struct RecordView {
    pub name: Seq<char>,
    pub texts: Seq<Seq<char>>,
    pub numbers: Seq<i64>,
    pub sizes: Seq<u64>,
}

impl View for ActionRecord {
    type V = RecordView;

    open spec fn view(&self) -> RecordView {
        RecordView {
            name: self.name@,
            texts: texts(self.texts@),
            numbers: self.numbers@,
            sizes: self.sizes@,
        }
    }
}

/// The bytes that `bincode::serialize` gives for a record's four fields,
/// taken as a tuple.
pub uninterp spec fn bincode_bytes(
    name: Seq<char>,
    texts: Seq<Seq<char>>,
    numbers: Seq<i64>,
    sizes: Seq<u64>,
) -> Seq<u8>;

/// The four fields that `bincode::deserialize` reads from bytes; `None`
/// where it gives an error.
pub uninterp spec fn bincode_fields(bytes: Seq<u8>) -> Option<
    (Seq<char>, Seq<Seq<char>>, Seq<i64>, Seq<u64>),
>;

/// The bytes of a record.
pub open spec fn encoding(record: RecordView) -> Seq<u8> {
    bincode_bytes(record.name, record.texts, record.numbers, record.sizes)
}

/// The record that bytes hold.
pub open spec fn decoding(bytes: Seq<u8>) -> Option<RecordView> {
    match bincode_fields(bytes) {
        Some(fields) => Some(
            RecordView { name: fields.0, texts: fields.1, numbers: fields.2, sizes: fields.3 },
        ),
        None => None,
    }
}

/// What a decoder handed out, as a mathematical value.
pub open spec fn decoded(record: Option<ActionRecord>) -> Option<RecordView> {
    match record {
        Some(record) => Some(record@),
        None => None,
    }
}

/// Encodes a record with `bincode::serialize`, applied to the tuple of its
/// four fields. The bytes depend on the fields alone; they are not spelled
/// out here. Three things are claimed of the encoder.
///
/// It gives bytes for every such tuple: it writes into a vector, under no
/// limit of size, and texts and lists bring their lengths, so that none of
/// its errors can come up.
///
/// The bytes are those that the name stands for.
///
/// And what was encoded decodes to itself: `bincode::deserialize` reads from
/// the bytes the four fields that went in. That is what the crate's
/// documentation shows of the pair of functions in its first example.
#[verifier::external_body]
pub(crate) fn serialize(record: &ActionRecord) -> (bytes: Option<Vec<u8>>)
    ensures
        bytes is Some,
        bytes matches Some(b) ==> b@ == bincode_bytes(
            record@.name,
            record@.texts,
            record@.numbers,
            record@.sizes,
        ),
        bytes matches Some(b) ==> bincode_fields(b@) == Some(
            (record@.name, record@.texts, record@.numbers, record@.sizes),
        ),
{
    bincode::serialize(&(&record.name, &record.texts, &record.numbers, &record.sizes)).ok()
}

/// Decodes a record with `bincode::deserialize`, which reads the tuple of
/// its four fields. What it reads depends on the bytes alone. Bytes that do
/// not hold such a tuple come back as `None`.
#[verifier::external_body]
pub(crate) fn deserialize(bytes: &[u8]) -> (record: Option<ActionRecord>)
    ensures
        match record {
            Some(r) => bincode_fields(bytes@) == Some(
                (r@.name, r@.texts, r@.numbers, r@.sizes),
            ),
            None => bincode_fields(bytes@) is None,
        },
{
    match bincode::deserialize::<(String, Vec<String>, Vec<i64>, Vec<u64>)>(bytes) {
        Ok((name, texts, numbers, sizes)) => Some(ActionRecord { name, texts, numbers, sizes }),
        Err(_) => None,
    }
}

} // verus!

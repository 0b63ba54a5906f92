//! The canonical text encoding of task results.
//!
//! Most domain results cross the boundary as an opaque, already-encoded
//! payload.  The composite results that carry renamed fields — output
//! metadata and address balances — are encoded here, field by field, into
//! the documented record shape; identifiers are rendered as lowercase
//! hexadecimal and amounts as decimal numbers.  A raw result bypasses the
//! encoding and is delivered as bytes.

use vstd::prelude::*;

use crate::address::Address;
use crate::failure::{Failure, TaskOutcome};
use crate::text::{append_dec, append_json_string, append_str, dec_of, hex_of, json_quoted};

verus! {

/// The metadata of one output, with every field already a plain value.
pub struct OutputInfo {
    /// Identifier of the message carrying the output.
    pub message_id: Vec<u8>,
    /// Identifier of the transaction producing the output.
    pub transaction_id: Vec<u8>,
    /// The output's index inside its transaction.
    pub output_index: u16,
    /// Whether the output has been spent.
    pub is_spent: bool,
    /// The address owning the output.
    pub address: Address,
    /// The output's amount.
    pub amount: u64,
}

/// One address together with its balance.
pub struct AddressBalance {
    /// The address.
    pub address: Address,
    /// Its balance.
    pub balance: u64,
}

/// The text of a JSON boolean.
pub open spec fn bool_text(b: bool) -> Seq<char> {
    if b {
        "true"@
    } else {
        "false"@
    }
}

/// The record encoding of one output's metadata, under the documented
/// field names: identifiers in hexadecimal, the address as its validated
/// text, the amount in decimal.
pub open spec fn output_info_text(m: OutputInfo) -> Seq<char> {
    "{\"messageId\":"@ + json_quoted(hex_of(m.message_id@)) + ",\"transactionId\":"@
        + json_quoted(hex_of(m.transaction_id@)) + ",\"outputIndex\":"@ + dec_of(
        m.output_index as nat,
    ) + ",\"isSpent\":"@ + bool_text(m.is_spent) + ",\"address\":"@ + json_quoted(
        m.address.text_view(),
    ) + ",\"amount\":"@ + dec_of(m.amount as nat) + "}"@
}

/// The record encoding of one address balance.
pub open spec fn address_balance_text(b: AddressBalance) -> Seq<char> {
    "{\"address\":"@ + json_quoted(b.address.text_view()) + ",\"balance\":"@ + dec_of(
        b.balance as nat,
    ) + "}"@
}

/// A comma-separated join of already-encoded items.
pub open spec fn joined(items: Seq<Seq<char>>) -> Seq<char>
    decreases items.len(),
{
    if items.len() == 0 {
        Seq::empty()
    } else if items.len() == 1 {
        items[0]
    } else {
        joined(items.drop_last()) + ","@ + items.last()
    }
}

/// The array encoding of already-encoded items.
pub open spec fn array_text(items: Seq<Seq<char>>) -> Seq<char> {
    "["@ + joined(items) + "]"@
}

/// Appends the JSON boolean for `b` to `out`.
pub fn append_bool(out: &mut Vec<char>, b: bool)
    ensures
        final(out)@ == old(out)@ + bool_text(b),
{
    if b {
        append_str(out, "true");
    } else {
        append_str(out, "false");
    }
}

/// Relies on `hex::encode`: lowercase hexadecimal, two digits per byte,
/// high nibble first.
#[verifier::external_body]
fn hex_chars(bytes: &Vec<u8>) -> (r: Vec<char>)
    ensures
        r@ == hex_of(bytes@),
{
    hex::encode(bytes.as_slice()).chars().collect()
}

/// Appends the quoted hexadecimal rendering of `bytes` to `out`.
pub fn append_hex_string(out: &mut Vec<char>, bytes: &Vec<u8>)
    ensures
        final(out)@ == old(out)@ + json_quoted(hex_of(bytes@)),
{
    let h = hex_chars(bytes);
    append_json_string(out, &h);
}

/// Appends the record encoding of one output's metadata to `out`.
pub fn append_output_info(out: &mut Vec<char>, m: &OutputInfo)
    ensures
        final(out)@ == old(out)@ + output_info_text(*m),
{
    append_str(out, "{\"messageId\":");
    append_hex_string(out, &m.message_id);
    append_str(out, ",\"transactionId\":");
    append_hex_string(out, &m.transaction_id);
    append_str(out, ",\"outputIndex\":");
    append_dec(out, m.output_index as u64);
    append_str(out, ",\"isSpent\":");
    append_bool(out, m.is_spent);
    append_str(out, ",\"address\":");
    append_json_string(out, m.address.text());
    append_str(out, ",\"amount\":");
    append_dec(out, m.amount);
    append_str(out, "}");
    assert(out@ =~= old(out)@ + output_info_text(*m));
}

/// Appends the record encoding of one address balance to `out`.
pub fn append_address_balance(out: &mut Vec<char>, b: &AddressBalance)
    ensures
        final(out)@ == old(out)@ + address_balance_text(*b),
{
    append_str(out, "{\"address\":");
    append_json_string(out, b.address.text());
    append_str(out, ",\"balance\":");
    append_dec(out, b.balance);
    append_str(out, "}");
    assert(out@ =~= old(out)@ + address_balance_text(*b));
}

/// Joining distributes over extension by one item at the end.
pub proof fn lemma_joined_push(items: Seq<Seq<char>>, item: Seq<char>)
    ensures
        joined(items.push(item)) == if items.len() == 0 {
            item
        } else {
            joined(items) + ","@ + item
        },
{
    reveal_with_fuel(joined, 2);
    assert(items.push(item).drop_last() =~= items);
    assert(items.push(item).last() == item);
}

/// The array encoding of a list of output records.
pub open spec fn output_infos_text(items: Seq<OutputInfo>) -> Seq<char> {
    array_text(items.map_values(|m: OutputInfo| output_info_text(m)))
}

/// The array encoding of a list of address balances.
pub open spec fn address_balances_text(items: Seq<AddressBalance>) -> Seq<char> {
    array_text(items.map_values(|b: AddressBalance| address_balance_text(b)))
}

/// Appends the array encoding of a list of output records to `out`.
pub fn append_output_array(out: &mut Vec<char>, items: &Vec<OutputInfo>)
    ensures
        final(out)@ == old(out)@ + output_infos_text(items@),
{
    append_str(out, "[");
    let n = items.len();
    let mut i: usize = 0;
    while i < n
        invariant
            n == items@.len(),
            i <= n,
            out@ == old(out)@ + "["@ + joined(
                items@.subrange(0, i as int).map_values(|m: OutputInfo| output_info_text(m)),
            ),
        decreases n - i,
    {
        if i > 0 {
            append_str(out, ",");
        }
        append_output_info(out, &items[i]);
        proof {
            let pre = items@.subrange(0, i as int).map_values(
                |m: OutputInfo| output_info_text(m),
            );
            assert(items@.subrange(0, i as int + 1) =~= items@.subrange(0, i as int).push(
                items@[i as int],
            ));
            assert(items@.subrange(0, i as int + 1).map_values(
                |m: OutputInfo| output_info_text(m),
            ) =~= pre.push(output_info_text(items@[i as int])));
            lemma_joined_push(pre, output_info_text(items@[i as int]));
            assert(out@ =~= old(out)@ + "["@ + joined(
                items@.subrange(0, i as int + 1).map_values(|m: OutputInfo| output_info_text(m)),
            ));
        }
        i = i + 1;
    }
    append_str(out, "]");
    proof {
        assert(items@.subrange(0, n as int) =~= items@);
        assert(out@ =~= old(out)@ + output_infos_text(items@));
    }
}

/// Appends the array encoding of a list of address balances to `out`.
pub fn append_balance_array(out: &mut Vec<char>, items: &Vec<AddressBalance>)
    ensures
        final(out)@ == old(out)@ + address_balances_text(items@),
{
    append_str(out, "[");
    let n = items.len();
    let mut i: usize = 0;
    while i < n
        invariant
            n == items@.len(),
            i <= n,
            out@ == old(out)@ + "["@ + joined(
                items@.subrange(0, i as int).map_values(|b: AddressBalance| address_balance_text(b)),
            ),
        decreases n - i,
    {
        if i > 0 {
            append_str(out, ",");
        }
        append_address_balance(out, &items[i]);
        proof {
            let pre = items@.subrange(0, i as int).map_values(
                |b: AddressBalance| address_balance_text(b),
            );
            assert(items@.subrange(0, i as int + 1) =~= items@.subrange(0, i as int).push(
                items@[i as int],
            ));
            assert(items@.subrange(0, i as int + 1).map_values(
                |b: AddressBalance| address_balance_text(b),
            ) =~= pre.push(address_balance_text(items@[i as int])));
            lemma_joined_push(pre, address_balance_text(items@[i as int]));
            assert(out@ =~= old(out)@ + "["@ + joined(
                items@.subrange(0, i as int + 1).map_values(
                    |b: AddressBalance| address_balance_text(b),
                ),
            ));
        }
        i = i + 1;
    }
    append_str(out, "]");
    proof {
        assert(items@.subrange(0, n as int) =~= items@);
        assert(out@ =~= old(out)@ + address_balances_text(items@));
    }
}

/// What the external call handed back, as plain values: the event on
/// which the task's outcome is decided.
pub enum CallReply {
    /// A message identifier (a posted transfer or message).
    MessageId(Vec<u8>),
    /// An unspent address and its index.
    UnspentAddress(Address, u64),
    /// Two tip message identifiers.
    Tips(Vec<u8>, Vec<u8>),
    /// One output's metadata.
    Output(OutputInfo),
    /// A list of outputs' metadata.
    Outputs(Vec<OutputInfo>),
    /// A list of address balances.
    Balances(Vec<AddressBalance>),
    /// A domain result already in its canonical text encoding.
    Payload(Vec<char>),
    /// A raw result, delivered as bytes without encoding.
    Raw(Vec<u8>),
    /// The client library reported an error; its text verbatim.
    Failed(Vec<char>),
}

/// Decides the outcome of a task whose external call came back.
///
/// A success is encoded into the canonical text for its shape — raw
/// results pass through as bytes — and a reported error becomes the
/// structured domain failure, text verbatim.
pub fn outcome_of_reply(reply: CallReply) -> (r: TaskOutcome)
    ensures
        reply matches CallReply::MessageId(id) ==> r matches TaskOutcome::Success(t) && t@
            == json_quoted(hex_of(id@)),
        reply matches CallReply::UnspentAddress(a, idx) ==> r matches TaskOutcome::Success(t) && t@
            == "["@ + json_quoted(a.text_view()) + ","@ + dec_of(idx as nat) + "]"@,
        reply matches CallReply::Tips(id1, id2) ==> r matches TaskOutcome::Success(t) && t@
            == array_text(seq![json_quoted(hex_of(id1@)), json_quoted(hex_of(id2@))]),
        reply matches CallReply::Output(m) ==> r matches TaskOutcome::Success(t) && t@
            == output_info_text(m),
        reply matches CallReply::Outputs(ms) ==> r matches TaskOutcome::Success(t) && t@
            == output_infos_text(ms@),
        reply matches CallReply::Balances(bs) ==> r matches TaskOutcome::Success(t) && t@
            == address_balances_text(bs@),
        reply matches CallReply::Payload(p) ==> r matches TaskOutcome::Success(t) && t@ == p@,
        reply matches CallReply::Raw(b) ==> r matches TaskOutcome::RawSuccess(rb) && rb@ == b@,
        reply matches CallReply::Failed(e) ==> r matches TaskOutcome::Failed(f) && f matches
            Failure::Domain(d) && d@ == e@,
{
    match reply {
        CallReply::MessageId(id) => {
            let mut out: Vec<char> = Vec::new();
            append_hex_string(&mut out, &id);
            assert(out@ =~= json_quoted(hex_of(id@)));
            TaskOutcome::Success(out)
        },
        CallReply::UnspentAddress(a, idx) => {
            let mut out: Vec<char> = Vec::new();
            append_str(&mut out, "[");
            append_json_string(&mut out, a.text());
            append_str(&mut out, ",");
            append_dec(&mut out, idx);
            append_str(&mut out, "]");
            assert(out@ =~= "["@ + json_quoted(a.text_view()) + ","@ + dec_of(idx as nat) + "]"@);
            TaskOutcome::Success(out)
        },
        CallReply::Tips(id1, id2) => {
            let mut out: Vec<char> = Vec::new();
            append_str(&mut out, "[");
            append_hex_string(&mut out, &id1);
            append_str(&mut out, ",");
            append_hex_string(&mut out, &id2);
            append_str(&mut out, "]");
            proof {
                let pair = seq![json_quoted(hex_of(id1@)), json_quoted(hex_of(id2@))];
                reveal_with_fuel(joined, 3);
                assert(pair.drop_last() =~= seq![json_quoted(hex_of(id1@))]);
                assert(out@ =~= array_text(pair));
            }
            TaskOutcome::Success(out)
        },
        CallReply::Output(m) => {
            let mut out: Vec<char> = Vec::new();
            append_output_info(&mut out, &m);
            assert(out@ =~= output_info_text(m));
            TaskOutcome::Success(out)
        },
        CallReply::Outputs(ms) => {
            let mut out: Vec<char> = Vec::new();
            append_output_array(&mut out, &ms);
            assert(out@ =~= output_infos_text(ms@));
            TaskOutcome::Success(out)
        },
        CallReply::Balances(bs) => {
            let mut out: Vec<char> = Vec::new();
            append_balance_array(&mut out, &bs);
            assert(out@ =~= address_balances_text(bs@));
            TaskOutcome::Success(out)
        },
        CallReply::Payload(p) => TaskOutcome::Success(p),
        CallReply::Raw(b) => TaskOutcome::RawSuccess(b),
        CallReply::Failed(e) => TaskOutcome::Failed(Failure::Domain(e)),
    }
}

} // verus!

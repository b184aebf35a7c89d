use vstd::bytes::lemma_auto_spec_u32_to_from_le_bytes;
use vstd::bytes::spec_u32_to_le_bytes;
use vstd::prelude::*;

use crate::error::ErrorKind;
use crate::record::decoded_counter;
use crate::record::GreetingAccount;
use crate::record::RECORD_SIZE;

verus! {

/// One account reference as the host hands it in: the identities and the
/// read-only diagnostic attributes as plain values, and the raw storage
/// buffer the handler may rewrite in place.
pub struct Account {
    /// The account's own identity (diagnostic only).
    pub key: Vec<u8>,
    /// The identity that claims to own this account.
    pub owner: Vec<u8>,
    /// The raw storage buffer; the record lives in its 4-byte prefix.
    pub data: Vec<u8>,
    /// Whether the account is marked executable (diagnostic only).
    pub executable: bool,
    /// The account's balance (diagnostic only).
    pub lamports: u64,
}

/// The counter's successor under the handler's wraparound arithmetic: the
/// maximum representable value steps back to zero.
pub open spec fn wrapped_successor(n: u32) -> u32 {
    if n == u32::MAX {
        0u32
    } else {
        (n + 1) as u32
    }
}

/// The buffer a successful call leaves behind: the incremented counter
/// re-encoded over the 4-byte prefix, every trailing byte as it was.
pub open spec fn updated_data(data: Seq<u8>) -> Seq<u8>
    recommends
        data.len() >= RECORD_SIZE,
{
    spec_u32_to_le_bytes(wrapped_successor(decoded_counter(data))) + data.skip(RECORD_SIZE as int)
}

impl GreetingAccount {
    /// Steps the counter once, wrapping from the maximum back to zero.
    pub fn increment(&mut self)
        ensures
            final(self).counter == wrapped_successor(old(self).counter),
    {
        if self.counter == u32::MAX {
            self.counter = 0;
        } else {
            self.counter = self.counter + 1;
        }
    }
}

/// True exactly when the two byte strings are equal.
fn bytes_equal(a: &[u8], b: &[u8]) -> (r: bool)
    ensures
        r <==> a@ == b@,
{
    if a.len() != b.len() {
        return false;
    }
    let mut i: usize = 0;
    while i < a.len()
        invariant
            i <= a@.len(),
            a@.len() == b@.len(),
            forall|j: int| 0 <= j < i ==> a@[j] == b@[j],
        decreases a@.len() - i,
    {
        if a[i] != b[i] {
            return false;
        }
        i = i + 1;
    }
    proof {
        assert(a@ =~= b@);
    }
    true
}

/// Validates ownership, then decodes, increments and re-encodes the record
/// held in the account's buffer, in place. The ownership gate comes first:
/// on any failure the buffer is left byte-for-byte unchanged, and nothing
/// but the buffer is ever written.
pub fn handle_account(expected_authority: &[u8], account: &mut Account) -> (r: Result<(), ErrorKind>)
    ensures
        final(account).key@ == old(account).key@,
        final(account).owner@ == old(account).owner@,
        final(account).executable == old(account).executable,
        final(account).lamports == old(account).lamports,
        r is Err ==> final(account).data@ == old(account).data@,
        old(account).owner@ != expected_authority@ ==> (r matches Err(e)
            && e == ErrorKind::IncorrectAuthority) && final(account).data@ == old(account).data@,
        old(account).owner@ == expected_authority@ && old(account).data@.len() < RECORD_SIZE
            ==> (r matches Err(e) && e == ErrorKind::MalformedRecord)
            && final(account).data@ == old(account).data@,
        old(account).owner@ == expected_authority@ && old(account).data@.len() >= RECORD_SIZE
            ==> r is Ok && final(account).data@ == updated_data(old(account).data@),
{
    if !bytes_equal(account.owner.as_slice(), expected_authority) {
        return Err(ErrorKind::IncorrectAuthority);
    }
    let mut record = match GreetingAccount::decode(account.data.as_slice()) {
        Ok(record) => record,
        Err(e) => {
            return Err(e);
        },
    };
    record.increment();
    match record.encode_into(&mut account.data) {
        Ok(()) => Ok(()),
        Err(e) => Err(e),
    }
}

/// Takes the first account of the list — the target — and runs the
/// validate-decode-mutate-encode cycle on it. The instruction payload is
/// accepted but not interpreted. Accounts past the first are never touched.
pub fn process_instruction(
    program_id: &[u8],
    accounts: &mut Vec<Account>,
    _instruction_data: &[u8],
) -> (r: Result<(), ErrorKind>)
    ensures
        final(accounts)@.len() == old(accounts)@.len(),
        forall|i: int|
            1 <= i < old(accounts)@.len() ==> final(accounts)@[i] == old(accounts)@[i],
        old(accounts)@.len() == 0 ==> (r matches Err(e) && e == ErrorKind::MissingAccount),
        old(accounts)@.len() > 0 ==> {
            let pre = old(accounts)@[0];
            let post = final(accounts)@[0];
            &&& post.key@ == pre.key@
            &&& post.owner@ == pre.owner@
            &&& post.executable == pre.executable
            &&& post.lamports == pre.lamports
            &&& r is Err ==> post.data@ == pre.data@
            &&& pre.owner@ != program_id@ ==> (r matches Err(e) && e
                == ErrorKind::IncorrectAuthority) && post.data@ == pre.data@
            &&& pre.owner@ == program_id@ && pre.data@.len() < RECORD_SIZE ==> (r matches Err(e)
                && e == ErrorKind::MalformedRecord) && post.data@ == pre.data@
            &&& pre.owner@ == program_id@ && pre.data@.len() >= RECORD_SIZE ==> r is Ok
                && post.data@ == updated_data(pre.data@)
        },
{
    if accounts.len() == 0 {
        return Err(ErrorKind::MissingAccount);
    }
    let account = &mut accounts[0];
    handle_account(program_id, account)
}

/// Law: one successful call on a buffer holding a counter below the maximum
/// leaves a buffer of the same length that holds the counter's successor,
/// with every byte past the 4-byte prefix unchanged.
pub proof fn lemma_increment_correct(data: Seq<u8>)
    requires
        data.len() >= RECORD_SIZE,
        decoded_counter(data) < u32::MAX,
    ensures
        updated_data(data).len() == data.len(),
        decoded_counter(updated_data(data)) == decoded_counter(data) + 1,
        forall|i: int| RECORD_SIZE <= i < data.len() ==> updated_data(data)[i] == data[i],
{
    lemma_auto_spec_u32_to_from_le_bytes();
    assert(updated_data(data).subrange(0, RECORD_SIZE as int) =~= spec_u32_to_le_bytes(
        wrapped_successor(decoded_counter(data)),
    ));
}

/// Law: one successful call on a buffer holding the maximum representable
/// counter leaves a buffer of the same length that holds exactly zero, with
/// every byte past the 4-byte prefix unchanged.
pub proof fn lemma_overflow_wraps(data: Seq<u8>)
    requires
        data.len() >= RECORD_SIZE,
        decoded_counter(data) == u32::MAX,
    ensures
        updated_data(data).len() == data.len(),
        decoded_counter(updated_data(data)) == 0,
        forall|i: int| RECORD_SIZE <= i < data.len() ==> updated_data(data)[i] == data[i],
{
    lemma_auto_spec_u32_to_from_le_bytes();
    assert(updated_data(data).subrange(0, RECORD_SIZE as int) =~= spec_u32_to_le_bytes(
        wrapped_successor(decoded_counter(data)),
    ));
}

} // verus!

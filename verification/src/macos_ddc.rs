//! The DDC/CI side of talking to a monitor over an Apple Silicon AV service:
//! the request packets for VCP feature reads and writes, their checksum, how
//! a reply and a write status are read, and the decisions of the walk over
//! the IOKit registry that finds the display's AV service.
use vstd::prelude::*;
use vstd::string::*;

use crate::text::text_eq;

verus! {

/// I2C chip address of the display's DDC/CI endpoint.
pub const CHIP_ADDRESS_DEFAULT: u32 = 0x37;
/// Chip address behind an MCDP29XX DisplayPort-to-HDMI converter.
pub const CHIP_ADDRESS_MCDP29XX: u32 = 0xB7;
/// I2C offset passed to both the read and the write of the AV service.
pub const INPUT_ADDR: u32 = 0x51;
/// VESA DDC/CI destination address (the display, 0x37 shifted left), the
/// seed of every checksum.
pub const DDC_DEST_SUB_ADDRESS: u8 = 0x6e;
/// VESA DDC/CI source address (the host); a Set VCP Feature request's
/// checksum covers it as well.
pub const DDC_SOURCE_ADDRESS: u8 = 0x51;
/// How many times a write is tried.
pub const WRITE_ATTEMPTS: u32 = 2;
/// Pause before each write attempt, and before a read.
pub const WRITE_WAIT_MS: u64 = 10;
pub const READ_WAIT_MS: u64 = 10;
/// Bytes read back for a reply.
pub const READ_BUF_LEN: usize = 12;
/// Index in the reply of the feature's current value (low byte).
pub const REPLY_VALUE_INDEX: usize = 9;

/// The DDC/CI checksum of `bytes`: the destination address 0x6e XOR-ed with
/// every byte of `bytes`, in order.
pub open spec fn xor_checksum(bytes: Seq<u8>) -> u8
    decreases bytes.len(),
{
    if bytes.len() == 0 {
        DDC_DEST_SUB_ADDRESS
    } else {
        xor_checksum(bytes.drop_last()) ^ bytes.last()
    }
}

/// A packet: its bytes followed by their checksum.
pub open spec fn with_checksum(bytes: Seq<u8>) -> Seq<u8> {
    bytes.push(xor_checksum(bytes))
}

/// The "Get VCP Feature" request for feature `code`.
pub open spec fn get_request(code: u8) -> Seq<u8> {
    with_checksum(seq![0x82u8, 0x01u8, code])
}

/// The body of the "Set VCP Feature" request writing the one-byte `value`
/// to feature `code`.
pub open spec fn set_body(code: u8, value: u8) -> Seq<u8> {
    seq![0x84u8, 0x03u8, code, 0u8, value]
}

/// The "Set VCP Feature" request: its body followed by a checksum that covers
/// the source address 0x51 and the body (the destination address seeds it).
pub open spec fn set_request(code: u8, value: u8) -> Seq<u8> {
    set_body(code, value).push(xor_checksum(seq![DDC_SOURCE_ADDRESS] + set_body(code, value)))
}

/// What a write attempt with this status leads to.
#[derive(Debug, PartialEq, Eq, Structural)]
pub enum WriteStep {
    /// The write went through.
    Done,
    /// Wait and try again.
    TryAgain,
    /// Give up, reporting this status of the last attempt.
    Fail(i32),
}

/// Where the walk over the IOKit service registry stands: the display's
/// location, and whether the last framebuffer seen is the display's.
#[derive(Debug)]
pub struct ServiceScan {
    pub location: String,
    pub framebuffer_matches: bool,
}

/// The checksum of a DDC/CI packet body.
pub fn checksum(bytes: &[u8]) -> (r: u8)
    ensures
        r == xor_checksum(bytes@),
{
    let mut acc: u8 = DDC_DEST_SUB_ADDRESS;
    let mut i: usize = 0;
    while i < bytes.len()
        invariant
            i <= bytes@.len(),
            acc == xor_checksum(bytes@.subrange(0, i as int)),
        decreases bytes.len() - i,
    {
        assert(bytes@.subrange(0, i + 1).drop_last() =~= bytes@.subrange(0, i as int));
        acc = acc ^ bytes[i];
        i = i + 1;
    }
    assert(bytes@.subrange(0, i as int) =~= bytes@);
    acc
}

/// The request that asks the monitor for the current value of feature `code`.
pub fn get_vcp_request(code: u8) -> (r: [u8; 4])
    ensures
        r@ == get_request(code),
        r@[0] == 0x82,
        r@[1] == 0x01,
        r@[2] == code,
        r@[3] == 0x6eu8 ^ 0x82u8 ^ 0x01u8 ^ code,
{
    let head = [0x82u8, 0x01u8, code];
    let c = checksum(&head);
    let r = [0x82u8, 0x01u8, code, c];
    assert(r@ =~= get_request(code));
    proof {
        lemma_request_bytes(code, 0);
    }
    r
}

/// The request that sets feature `code` to `value`.
pub fn set_vcp_request(code: u8, value: u8) -> (r: [u8; 6])
    ensures
        r@ == set_request(code, value),
        r@[0] == 0x84,
        r@[1] == 0x03,
        r@[2] == code,
        r@[3] == 0,
        r@[4] == value,
        r@[5] == 0x6eu8 ^ 0x51u8 ^ 0x84u8 ^ 0x03u8 ^ code ^ 0u8 ^ value,
{
    let covered = [DDC_SOURCE_ADDRESS, 0x84u8, 0x03u8, code, 0u8, value];
    let c = checksum(&covered);
    assert(covered@ =~= seq![DDC_SOURCE_ADDRESS] + set_body(code, value));
    let r = [0x84u8, 0x03u8, code, 0u8, value, c];
    assert(r@ =~= set_request(code, value));
    proof {
        lemma_request_bytes(code, value);
    }
    r
}

/// The requests' bytes: the Get request is 0x82 0x01 and the feature code,
/// then the destination address XOR-ed with those three; the Set request is
/// 0x84 0x03, the feature code, 0 and the value unchanged, then the
/// destination and source addresses XOR-ed with those five.
pub proof fn lemma_request_bytes(code: u8, value: u8)
    ensures
        get_request(code) == seq![0x82u8, 0x01u8, code, 0x6eu8 ^ 0x82u8 ^ 0x01u8 ^ code],
        set_request(code, value) == seq![
            0x84u8,
            0x03u8,
            code,
            0u8,
            value,
            0x6eu8 ^ 0x51u8 ^ 0x84u8 ^ 0x03u8 ^ code ^ 0u8 ^ value,
        ],
{
    let g = seq![0x82u8, 0x01u8, code];
    assert(g.drop_last().drop_last().drop_last() =~= Seq::<u8>::empty());
    assert(g.drop_last().drop_last() =~= seq![0x82u8]);
    assert(g.drop_last() =~= seq![0x82u8, 0x01u8]);
    assert(seq![0x82u8].drop_last() =~= Seq::<u8>::empty());
    assert(xor_checksum(Seq::<u8>::empty()) == 0x6eu8);
    assert(xor_checksum(seq![0x82u8]) == xor_checksum(Seq::<u8>::empty()) ^ 0x82u8);
    assert(xor_checksum(seq![0x82u8]) == 0x6eu8 ^ 0x82u8);
    assert(xor_checksum(seq![0x82u8, 0x01u8]) == 0x6eu8 ^ 0x82u8 ^ 0x01u8);
    assert(xor_checksum(g) == 0x6eu8 ^ 0x82u8 ^ 0x01u8 ^ code);
    assert(get_request(code) =~= seq![0x82u8, 0x01u8, code, 0x6eu8 ^ 0x82u8 ^ 0x01u8 ^ code]);
    let c = seq![DDC_SOURCE_ADDRESS] + set_body(code, value);
    assert(c =~= seq![0x51u8, 0x84u8, 0x03u8, code, 0u8, value]);
    assert(c.drop_last() =~= seq![0x51u8, 0x84u8, 0x03u8, code, 0u8]);
    assert(c.drop_last().drop_last() =~= seq![0x51u8, 0x84u8, 0x03u8, code]);
    assert(c.drop_last().drop_last().drop_last() =~= seq![0x51u8, 0x84u8, 0x03u8]);
    assert(c.drop_last().drop_last().drop_last().drop_last() =~= seq![0x51u8, 0x84u8]);
    assert(c.drop_last().drop_last().drop_last().drop_last().drop_last() =~= seq![0x51u8]);
    assert(seq![0x51u8].drop_last() =~= Seq::<u8>::empty());
    assert(xor_checksum(Seq::<u8>::empty()) == 0x6eu8);
    assert(xor_checksum(seq![0x51u8]) == xor_checksum(Seq::<u8>::empty()) ^ 0x51u8);
    assert(xor_checksum(seq![0x51u8]) == 0x6eu8 ^ 0x51u8);
    assert(xor_checksum(seq![0x51u8, 0x84u8]) == 0x6eu8 ^ 0x51u8 ^ 0x84u8);
    assert(xor_checksum(seq![0x51u8, 0x84u8, 0x03u8]) == 0x6eu8 ^ 0x51u8 ^ 0x84u8 ^ 0x03u8);
    assert(xor_checksum(seq![0x51u8, 0x84u8, 0x03u8, code]) == 0x6eu8 ^ 0x51u8 ^ 0x84u8 ^ 0x03u8
        ^ code);
    assert(xor_checksum(seq![0x51u8, 0x84u8, 0x03u8, code, 0u8]) == 0x6eu8 ^ 0x51u8 ^ 0x84u8
        ^ 0x03u8 ^ code ^ 0u8);
    assert(xor_checksum(c) == 0x6eu8 ^ 0x51u8 ^ 0x84u8 ^ 0x03u8 ^ code ^ 0u8 ^ value);
    assert(set_request(code, value) =~= seq![
        0x84u8,
        0x03u8,
        code,
        0u8,
        value,
        0x6eu8 ^ 0x51u8 ^ 0x84u8 ^ 0x03u8 ^ code ^ 0u8 ^ value,
    ]);
}

/// A packet built with `with_checksum` checks out: the checksum over all of
/// it, the appended byte included, is zero.
pub proof fn lemma_packet_checks_out(bytes: Seq<u8>)
    ensures
        xor_checksum(with_checksum(bytes)) == 0,
{
    let p = with_checksum(bytes);
    assert(p.drop_last() =~= bytes);
    let c = xor_checksum(bytes);
    assert(c ^ c == 0) by (bit_vector);
}

/// Both requests the app sends check out: the Get request on its own, the
/// Set request together with the source address its checksum covers.
pub proof fn lemma_requests_check_out(code: u8, value: u8)
    ensures
        xor_checksum(get_request(code)) == 0,
        xor_checksum(seq![DDC_SOURCE_ADDRESS] + set_request(code, value)) == 0,
{
    lemma_packet_checks_out(seq![0x82u8, 0x01u8, code]);
    let covered = seq![DDC_SOURCE_ADDRESS] + set_body(code, value);
    lemma_packet_checks_out(covered);
    assert(seq![DDC_SOURCE_ADDRESS] + set_request(code, value) =~= with_checksum(covered));
}

/// The checksum of `s` is the checksum of `s` without its element at `k`,
/// XOR-ed with that element.
proof fn lemma_checksum_remove(s: Seq<u8>, k: int)
    requires
        0 <= k < s.len(),
    ensures
        xor_checksum(s) == xor_checksum(s.remove(k)) ^ s[k],
    decreases s.len(),
{
    let last = s.last();
    if k == s.len() - 1 {
        assert(s.remove(k) =~= s.drop_last());
    } else {
        let d = s.drop_last();
        lemma_checksum_remove(d, k);
        assert(s.remove(k).drop_last() =~= d.remove(k));
        assert(s.remove(k).last() == last);
        let a = xor_checksum(d.remove(k));
        let b = s[k];
        assert((a ^ b) ^ last == (a ^ last) ^ b) by (bit_vector);
    }
}

/// The checksum does not depend on the order of the bytes: any two byte
/// sequences holding the same bytes (as multisets) have the same checksum.
pub proof fn lemma_checksum_order_free(a: Seq<u8>, b: Seq<u8>)
    requires
        a.to_multiset() == b.to_multiset(),
    ensures
        xor_checksum(a) == xor_checksum(b),
    decreases a.len(),
{
    broadcast use vstd::seq_lib::group_to_multiset_ensures;

    if a.len() == 0 {
        assert(a.to_multiset().len() == 0);
        assert(b.to_multiset().len() == b.len());
        assert(b.len() == 0);
        assert(b =~= Seq::<u8>::empty());
    } else {
        let x = a.last();
        assert(a.drop_last().push(x) =~= a);
        assert(a.to_multiset().count(x) > 0);
        assert(b.contains(x));
        let k = choose|k: int| 0 <= k < b.len() && b[k] == x;
        assert(a.drop_last().to_multiset() =~= a.to_multiset().remove(x));
        assert(b.remove(k).to_multiset() =~= b.to_multiset().remove(x));
        lemma_checksum_order_free(a.drop_last(), b.remove(k));
        lemma_checksum_remove(b, k);
    }
}

/// The current value in a reply read with status `status`: the byte at
/// `REPLY_VALUE_INDEX` when the read succeeded (status 0), else the status.
pub fn reply_value(status: i32, reply: &[u8; 12]) -> (r: Result<u8, i32>)
    ensures
        status == 0 ==> r == Ok::<u8, i32>(reply@[9]),
        status != 0 ==> r == Err::<u8, i32>(status),
{
    if status != 0 {
        Err(status)
    } else {
        Ok(reply[REPLY_VALUE_INDEX])
    }
}

/// What follows write attempt number `attempt` (counting from 0) that ended
/// with `status`: done on status 0, else another attempt while fewer than
/// `WRITE_ATTEMPTS` were made, else failure with that status.
pub fn write_step(attempt: u32, status: i32) -> (r: WriteStep)
    ensures
        status == 0 ==> r == WriteStep::Done,
        status != 0 && attempt + 1 < WRITE_ATTEMPTS ==> r == WriteStep::TryAgain,
        status != 0 && attempt + 1 >= WRITE_ATTEMPTS ==> r == WriteStep::Fail(status),
{
    if status == 0 {
        WriteStep::Done
    } else if attempt < WRITE_ATTEMPTS - 1 {
        WriteStep::TryAgain
    } else {
        WriteStep::Fail(status)
    }
}

pub open spec fn is_text(o: Option<&str>, t: Seq<char>) -> bool {
    match o {
        Some(s) => s@ == t,
        None => false,
    }
}

fn opt_text_eq(o: Option<&str>, t: &str) -> (r: bool)
    ensures
        r == is_text(o, t@),
{
    match o {
        Some(s) => text_eq(s, t),
        None => false,
    }
}

impl ServiceScan {
    /// Starts a walk looking for the AV service of the display at `location`.
    pub fn new(location: String) -> (r: Self)
        ensures
            r.location == location,
            !r.framebuffer_matches,
    {
        ServiceScan { location, framebuffer_matches: false }
    }

    /// A framebuffer entry was reached: the service entries that follow belong
    /// to the display when this framebuffer's registry path is its location.
    pub fn visit_framebuffer(&mut self, path: Option<&str>)
        ensures
            final(self).location == old(self).location,
            final(self).framebuffer_matches == is_text(path, old(self).location@),
    {
        self.framebuffer_matches = opt_text_eq(path, self.location.as_str());
    }

    /// Whether an entry that is not a framebuffer is worth an AV service: it
    /// follows the display's framebuffer and is named "DCPAVServiceProxy".
    pub fn is_candidate(&self, name: Option<&str>) -> (r: bool)
        ensures
            r == (self.framebuffer_matches && is_text(name, "DCPAVServiceProxy"@)),
    {
        self.framebuffer_matches && opt_text_eq(name, "DCPAVServiceProxy")
    }
}

/// The chip address to talk to through a candidate entry's AV service, if it
/// is the one: the service could be created and the entry's "Location" is
/// "External"; the address is the MCDP29XX one when the entry's parent has
/// "EPICProviderClass" "AppleDCPMCDP29XX", the default one otherwise.
pub fn transport_chip_address(
    service_created: bool,
    location: Option<&str>,
    parent_provider_class: Option<&str>,
) -> (r: Option<u32>)
    ensures
        r is Some <==> (service_created && is_text(location, "External"@)),
        r is Some ==> r == Some(
            if is_text(parent_provider_class, "AppleDCPMCDP29XX"@) {
                CHIP_ADDRESS_MCDP29XX
            } else {
                CHIP_ADDRESS_DEFAULT
            },
        ),
{
    let is_external = opt_text_eq(location, "External");
    let chip_address = if opt_text_eq(parent_provider_class, "AppleDCPMCDP29XX") {
        CHIP_ADDRESS_MCDP29XX
    } else {
        CHIP_ADDRESS_DEFAULT
    };
    if !service_created || !is_external {
        None
    } else {
        Some(chip_address)
    }
}

} // verus!

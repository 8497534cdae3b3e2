//! Which endpoint of the camera to stream from.

use vstd::prelude::*;

verus! {

/// How an endpoint transfers data.
#[derive(Clone, Copy, Debug, PartialEq, Eq, Structural)]
pub enum TransferKind {
    Control,
    Isochronous,
    Bulk,
    Interrupt,
}

/// Which way an endpoint transfers data.
#[derive(Clone, Copy, Debug, PartialEq, Eq, Structural)]
pub enum Flow {
    /// To the host.
    In,
    /// To the device.
    Out,
}

/// What the camera's configuration says of one endpoint.
#[derive(Clone, Copy, Debug, PartialEq, Eq, Structural)]
pub struct Endpoint {
    /// The alternate setting in which the endpoint exists.
    pub setting: u8,
    pub address: u8,
    pub kind: TransferKind,
    pub flow: Flow,
    /// The raw packet size field, with the extra transactions per frame in bits 11 and 12.
    pub max_packet_size: u16,
}

/// The endpoint to stream from.
#[derive(Clone, Copy, Debug, PartialEq, Eq, Structural)]
pub struct Chosen {
    /// Bytes that the endpoint can deliver in one USB frame.
    pub bytes: usize,
    pub setting: u8,
    pub address: u8,
}

/// Why no endpoint can be streamed from.
#[derive(Clone, Copy, Debug, PartialEq, Eq, Structural)]
pub enum EndpointError {
    NoIsochronousIn,
}

/// Bytes per USB frame that a raw packet size field stands for: the packet size in its low 11
/// bits, times one plus the extra transactions in the next two.
pub open spec fn frame_bytes(raw: u16) -> int {
    (raw % 2048) * (raw as int / 2048 % 4 + 1)
}

/// What an endpoint can deliver of a video stream in one USB frame.
pub open spec fn capacity(e: Endpoint) -> int {
    if e.kind == TransferKind::Isochronous && e.flow == Flow::In {
        frame_bytes(e.max_packet_size)
    } else {
        0
    }
}

/// Whether endpoint `k` is the first of those with the greatest capacity, and has any.
pub open spec fn first_best(eps: Seq<Endpoint>, k: int) -> bool {
    &&& 0 <= k < eps.len()
    &&& capacity(eps[k]) > 0
    &&& forall|j: int| 0 <= j < eps.len() ==> capacity(#[trigger] eps[j]) <= capacity(eps[k])
    &&& forall|j: int| 0 <= j < k ==> capacity(#[trigger] eps[j]) < capacity(eps[k])
}

/// The choice of an endpoint.
pub open spec fn chosen(e: Endpoint) -> Chosen {
    Chosen { bytes: capacity(e) as usize, setting: e.setting, address: e.address }
}

/// A raw packet size field stands for at most 2047 bytes in each of four transactions.
pub proof fn law_frame_bytes_bounded(raw: u16)
    ensures
        0 <= frame_bytes(raw) <= 8188,
{
    let size = raw as int % 2048;
    let times = raw as int / 2048 % 4 + 1;
    assert(0 <= size * times <= 2047 * 4) by (nonlinear_arith)
        requires
            0 <= size <= 2047,
            1 <= times <= 4,
    ;
}

/// A raw packet size field stands for no bytes exactly when the size in it is zero.
pub proof fn law_frame_bytes_zero(raw: u16)
    ensures
        frame_bytes(raw) == 0 <==> raw % 2048 == 0,
{
    let size = raw as int % 2048;
    let times = raw as int / 2048 % 4 + 1;
    assert(size * times == 0 <==> size == 0) by (nonlinear_arith)
        requires
            0 <= size,
            1 <= times,
    ;
}

/// Bytes per USB frame that a raw packet size field stands for.
pub fn packet_bytes(raw: u16) -> (bytes: usize)
    ensures
        bytes == frame_bytes(raw),
        bytes == (raw % 2048) * (raw as int / 2048 % 4 + 1),
        bytes <= 8188,
{
    proof {
        law_frame_bytes_bounded(raw);
        assert((raw & 0x07ff) == raw % 2048) by (bit_vector);
        assert(((raw >> 11) & 3) == raw / 2048 % 4) by (bit_vector);
    }
    (raw & 0x07ff) as usize * ((((raw >> 11) & 3) + 1) as usize)
}

/// Picks the isochronous IN endpoint that delivers the most bytes per USB frame, the first of
/// them if several do, whichever alternate setting it belongs to.
pub fn pick_endpoint(eps: &[Endpoint]) -> (r: Result<Chosen, EndpointError>)
    ensures
        r matches Ok(c) ==> {
            &&& exists|k: int| #[trigger] first_best(eps@, k) && c == chosen(eps@[k])
            &&& 0 < c.bytes <= 8188
        },
        r is Err <==> forall|i: int| 0 <= i < eps@.len() ==> capacity(#[trigger] eps@[i]) == 0,
        r matches Ok(c) ==> exists|k: int|
            {
                &&& 0 <= k < eps@.len()
                &&& (#[trigger] eps@[k]).kind == TransferKind::Isochronous
                &&& eps@[k].flow == Flow::In
                &&& c.setting == eps@[k].setting
                &&& c.address == eps@[k].address
                &&& c.bytes == (eps@[k].max_packet_size % 2048) * (eps@[k].max_packet_size as int
                    / 2048 % 4 + 1)
                &&& c.bytes > 0
                &&& forall|j: int|
                    0 <= j < eps@.len() && (#[trigger] eps@[j]).kind == TransferKind::Isochronous
                        && eps@[j].flow == Flow::In ==> {
                        let b = (eps@[j].max_packet_size % 2048) * (eps@[j].max_packet_size as int
                            / 2048 % 4 + 1);
                        b <= c.bytes && (j < k ==> b < c.bytes)
                    }
            },
        r is Err <==> forall|i: int|
            0 <= i < eps@.len() && (#[trigger] eps@[i]).kind == TransferKind::Isochronous
                && eps@[i].flow == Flow::In ==> eps@[i].max_packet_size % 2048 == 0,
{
    let mut best: usize = 0;
    let mut best_alt: u8 = 0;
    let mut ep_addr: u8 = 0x81;
    let ghost mut at: int = -1;
    let mut i: usize = 0;
    while i < eps.len()
        invariant
            i <= eps@.len(),
            best <= 8188,
            best == 0 ==> forall|j: int| 0 <= j < i ==> capacity(#[trigger] eps@[j]) == 0,
            best > 0 ==> first_best(eps@.take(i as int), at) && (Chosen {
                bytes: best,
                setting: best_alt,
                address: ep_addr,
            }) == chosen(eps@[at]),
        decreases eps@.len() - i,
    {
        let e: Endpoint = eps[i];
        let ghost seen = eps@.take(i as int);
        let ghost next = eps@.take(i + 1);
        proof {
            law_frame_bytes_bounded(e.max_packet_size);
            assert(next =~= seen.push(e));
        }
        if e.kind == TransferKind::Isochronous && e.flow == Flow::In {
            let sz: usize = packet_bytes(e.max_packet_size);
            if sz > best {
                proof {
                    assert forall|j: int| 0 <= j < i implies capacity(#[trigger] next[j]) < sz by {
                        assert(next[j] == seen[j] && seen[j] == eps@[j]);
                        if best > 0 {
                            law_frame_bytes_bounded(eps@[at].max_packet_size);
                            assert(seen[at] == eps@[at]);
                        }
                    }
                    at = i as int;
                }
                best = sz;
                best_alt = e.setting;
                ep_addr = e.address;
            }
        }
        assert(best > 0 ==> first_best(next, at)) by {
            if best > 0 && at < i {
                assert forall|j: int| 0 <= j < next.len() implies capacity(#[trigger] next[j])
                    <= capacity(next[at]) by {
                    if j < i {
                        assert(next[j] == seen[j]);
                    }
                }
                assert forall|j: int| 0 <= j < at implies capacity(#[trigger] next[j]) < capacity(
                    next[at],
                ) by {
                    assert(next[j] == seen[j]);
                }
            }
        }
        i = i + 1;
    }
    assert(eps@.take(eps@.len() as int) =~= eps@);
    proof {
        assert forall|j: int|
            0 <= j < eps@.len() && (#[trigger] eps@[j]).kind == TransferKind::Isochronous
                && eps@[j].flow == Flow::In implies {
            &&& capacity(eps@[j]) == 0 <==> eps@[j].max_packet_size % 2048 == 0
            &&& capacity(eps@[j]) == (eps@[j].max_packet_size % 2048) * (
            eps@[j].max_packet_size as int / 2048 % 4 + 1)
        } by {
            law_frame_bytes_zero(eps@[j].max_packet_size);
        }
        if best > 0 {
            law_frame_bytes_bounded(eps@[at].max_packet_size);
            law_frame_bytes_zero(eps@[at].max_packet_size);
            assert(eps@[at].kind == TransferKind::Isochronous);
        } else {
            assert forall|j: int|
                0 <= j < eps@.len() && (#[trigger] eps@[j]).kind == TransferKind::Isochronous
                    && eps@[j].flow == Flow::In implies eps@[j].max_packet_size % 2048 == 0 by {
                assert(capacity(eps@[j]) == 0);
            }
        }
    }
    if best == 0 {
        Err(EndpointError::NoIsochronousIn)
    } else {
        Ok(Chosen { bytes: best, setting: best_alt, address: ep_addr })
    }
}

impl EndpointError {
    /// The error in words.
    pub fn message(&self) -> (m: &'static str)
        ensures
            m@ == "no isochronous IN endpoint found"@,
    {
        "no isochronous IN endpoint found"
    }
}

/// At most one endpoint is the first of the best, so the choice is determined.
pub proof fn law_choice_unique(eps: Seq<Endpoint>, k: int, l: int)
    requires
        first_best(eps, k),
        first_best(eps, l),
    ensures
        k == l,
{
    assert(capacity(eps[k]) == capacity(eps[l]));
}

/// Some endpoint is chosen whenever any endpoint can deliver video.
pub proof fn law_choice_exists(eps: Seq<Endpoint>)
    requires
        exists|i: int| 0 <= i < eps.len() && capacity(#[trigger] eps[i]) > 0,
    ensures
        exists|k: int| first_best(eps, k),
    decreases eps.len(),
{
    let last = eps.last();
    let init = eps.drop_last();
    let n = init.len() as int;
    if exists|i: int| 0 <= i < n && capacity(#[trigger] init[i]) > 0 {
        law_choice_exists(init);
        let k = choose|k: int| first_best(init, k);
        assert forall|j: int| 0 <= j < n implies #[trigger] eps[j] == init[j] by {}
        if capacity(last) <= capacity(init[k]) {
            assert(first_best(eps, k));
        } else {
            assert(first_best(eps, n));
        }
    } else {
        assert forall|j: int| 0 <= j < n implies capacity(#[trigger] eps[j]) <= 0 by {
            assert(init[j] == eps[j]);
        }
        assert(first_best(eps, n));
    }
}

/// The choice takes setting, address and capacity from one and the same endpoint, an isochronous
/// IN endpoint with the greatest capacity, before which none has as much.
pub proof fn law_choice_describes_its_endpoint(eps: Seq<Endpoint>, k: int, j: int)
    requires
        first_best(eps, k),
        0 <= j < eps.len(),
        eps[j].kind == TransferKind::Isochronous,
        eps[j].flow == Flow::In,
    ensures
        0 <= k < eps.len(),
        eps[k].kind == TransferKind::Isochronous,
        eps[k].flow == Flow::In,
        chosen(eps[k]).setting == eps[k].setting,
        chosen(eps[k]).address == eps[k].address,
        chosen(eps[k]).bytes == (eps[k].max_packet_size % 2048) * (eps[k].max_packet_size as int
            / 2048 % 4 + 1),
        chosen(eps[k]).bytes > 0,
        (eps[j].max_packet_size % 2048) * (eps[j].max_packet_size as int / 2048 % 4 + 1) <= chosen(
            eps[k],
        ).bytes,
        j < k ==> (eps[j].max_packet_size % 2048) * (eps[j].max_packet_size as int / 2048 % 4 + 1)
            < chosen(eps[k]).bytes,
{
    law_frame_bytes_bounded(eps[k].max_packet_size);
    assert(capacity(eps[j]) <= capacity(eps[k]));
}

/// A packet size field stands for its size once, and once more for each extra transaction,
/// whatever its three top bits hold.
pub proof fn law_frame_bytes_counts_transactions(size: u16, extra: u16, reserved: u16)
    requires
        size < 2048,
        extra < 4,
        reserved < 8,
    ensures
        frame_bytes((size + 2048 * extra + 8192 * reserved) as u16) == size * (extra + 1),
{
    let raw = (size + 2048 * extra + 8192 * reserved) as u16;
    assert(raw % 2048 == size);
    assert(raw as int / 2048 % 4 == extra);
}

} // verus!

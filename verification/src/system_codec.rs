use vstd::prelude::*;

use crate::buffer::data::{
    opt_data_view, opt_len, step_bytes, step_opt_bytes, wire_bytes, wire_opt_bytes, BinaryData,
};
use crate::buffer::owned::OwnedImpl;
use crate::buffer::str::{decode_opt_byte_str, encode_opt_byte_str, opt_str_view, ByteStr};
use crate::error::Error;
use crate::codes::SUCCESS;
use crate::header::{wire_header, Header, Uuid, Version};
use crate::kind::Kind;
use crate::response::{step_resp, wire_resp, Response};
use crate::wire::{
    bool_byte, emit_u128, emit_u64, emit_u8, parse_u128, parse_u64, parse_u8, parse_usize,
    u128_be, u64_be, Reader, Step,
};

verus! {

pub const START: u8 = 0x70;

pub const REPORT: u8 = START;

pub const REPORT_ACK: u8 = START + 1;

pub const JOIN: u8 = START + 2;

pub const JOIN_ACK: u8 = START + 3;

pub const TRANSFER: u8 = START + 4;

pub const TRANSFER_ACK: u8 = START + 5;

pub const PING: u8 = START + 6;

pub const PING_ACK: u8 = START + 7;

pub const END: u8 = START + 7;

/// Whether a kind byte belongs to the system family.
pub fn is_system_message(kind: u8) -> (r: bool)
    ensures
        r == (START <= kind <= END),
{
    START <= kind && kind <= END
}

// ---------------------------------------------------------------------------
// Role: what a node is in the chain. On the wire: a tag byte in `1..=3`,
// then an address for the two roles that carry one.
// ---------------------------------------------------------------------------

#[derive(Debug, Clone, PartialEq, Eq)]
pub enum Role {
    Backend(ByteStr),
    Frontend(ByteStr),
    Observer,
}

/// The byte strings a role carries.
pub enum RoleView {
    Backend(Seq<u8>),
    Frontend(Seq<u8>),
    Observer,
}

impl View for Role {
    type V = RoleView;

    open spec fn view(&self) -> RoleView {
        match self {
            Role::Backend(addr) => RoleView::Backend(addr@),
            Role::Frontend(addr) => RoleView::Frontend(addr@),
            Role::Observer => RoleView::Observer,
        }
    }
}

pub open spec fn wire_role(v: RoleView) -> Seq<u8> {
    match v {
        RoleView::Backend(addr) => seq![1u8] + wire_bytes(addr),
        RoleView::Frontend(addr) => seq![2u8] + wire_bytes(addr),
        RoleView::Observer => seq![3u8],
    }
}

/// How many buffer bytes a role takes up when decoded.
pub open spec fn role_need(v: RoleView) -> int {
    match v {
        RoleView::Backend(addr) => addr.len() as int,
        RoleView::Frontend(addr) => addr.len() as int,
        RoleView::Observer => 0,
    }
}

pub open spec fn step_role(s: Seq<u8>, cap: int) -> Step<RoleView> {
    match parse_u8(s) {
        None => Step::Fail(Error::Decode),
        Some((tag, r1)) => if tag == 1 {
            match step_bytes(r1, cap) {
                Step::Done(b, r2, c2) => Step::Done(RoleView::Backend(b), r2, c2),
                Step::Fail(e) => Step::Fail(e),
            }
        } else if tag == 2 {
            match step_bytes(r1, cap) {
                Step::Done(b, r2, c2) => Step::Done(RoleView::Frontend(b), r2, c2),
                Step::Fail(e) => Step::Fail(e),
            }
        } else if tag == 3 {
            Step::Done(RoleView::Observer, r1, cap)
        } else {
            Step::Fail(Error::SystemBadRole(tag))
        },
    }
}

pub proof fn lemma_step_role(v: RoleView, rest: Seq<u8>, cap: int)
    requires
        role_need(v) <= cap,
        role_need(v) <= usize::MAX,
    ensures
        step_role(wire_role(v) + rest, cap) == Step::Done(v, rest, cap - role_need(v)),
{
    match v {
        RoleView::Backend(addr) => {
            let tail = wire_bytes(addr) + rest;
            assert(wire_role(v) + rest =~= seq![1u8] + tail);
            crate::wire::lemma_parse_u8(1u8, tail);
            crate::buffer::data::lemma_step_bytes(addr, rest, cap);
        },
        RoleView::Frontend(addr) => {
            let tail = wire_bytes(addr) + rest;
            assert(wire_role(v) + rest =~= seq![2u8] + tail);
            crate::wire::lemma_parse_u8(2u8, tail);
            crate::buffer::data::lemma_step_bytes(addr, rest, cap);
        },
        RoleView::Observer => {
            assert(wire_role(v) + rest =~= seq![3u8] + rest);
            crate::wire::lemma_parse_u8(3u8, rest);
        },
    }
}

impl Role {
    /// How many bytes this role takes on the wire.
    pub fn encode_len(&self) -> (r: usize)
        requires
            wire_role(self@).len() <= usize::MAX,
        ensures
            r == wire_role(self@).len(),
    {
        match self {
            Role::Backend(addr) => 9 + addr.len(),
            Role::Frontend(addr) => 9 + addr.len(),
            Role::Observer => 1,
        }
    }

    /// Reads the tag byte and, for the two addressed roles, the address.
    /// A tag outside `1..=3` is reported after exactly that one byte.
    pub fn decode_owned(reader: &mut Reader, buffer: &mut OwnedImpl) -> (r: Result<Role, Error>)
        requires
            old(reader).wf(),
            old(buffer).wf(),
            old(buffer).filled == 0,
        ensures
            final(reader).wf(),
            final(reader).data == old(reader).data,
            final(buffer).wf(),
            final(buffer).filled == 0,
            match r {
                Ok(role) => step_role(old(reader).rem(), old(buffer).cap()) == Step::Done(
                    role@,
                    final(reader).rem(),
                    final(buffer).cap(),
                ),
                Err(e) => step_role(old(reader).rem(), old(buffer).cap()) == Step::<
                    RoleView,
                >::Fail(e),
            },
            (match parse_u8(old(reader).rem()) {
                Some((tag, rest)) => 1 <= tag <= 3 || (r == Err::<Role, Error>(
                    Error::SystemBadRole(tag),
                ) && final(reader).rem() == rest),
                None => true,
            }),
    {
        let tag = reader.read_u8()?;
        if tag == 1 {
            let addr = ByteStr::decode_owned(reader, buffer)?;
            Ok(Role::Backend(addr))
        } else if tag == 2 {
            let addr = ByteStr::decode_owned(reader, buffer)?;
            Ok(Role::Frontend(addr))
        } else if tag == 3 {
            Ok(Role::Observer)
        } else {
            Err(Error::SystemBadRole(tag))
        }
    }

    /// Writes the tag byte, then the address if the role has one.
    pub fn encode(&self, writer: &mut Vec<u8>) -> (r: Result<(), Error>)
        ensures
            r is Ok,
            final(writer)@ == old(writer)@ + wire_role(self@),
    {
        match self {
            Role::Backend(addr) => {
                emit_u8(writer, 1);
                addr.encode(writer)?;
            },
            Role::Frontend(addr) => {
                emit_u8(writer, 2);
                addr.encode(writer)?;
            },
            Role::Observer => {
                emit_u8(writer, 3);
            },
        }
        proof {
            assert(writer@ =~= old(writer)@ + wire_role(self@));
        }
        Ok(())
    }
}

// ---------------------------------------------------------------------------
// A chain of roles, head first. On the wire: a `u64` count, then the roles
// back to back.
// ---------------------------------------------------------------------------

pub open spec fn roles_view(s: Seq<Role>) -> Seq<RoleView> {
    s.map_values(|r: Role| r@)
}

pub open spec fn wire_roles(vs: Seq<RoleView>) -> Seq<u8>
    decreases vs.len(),
{
    if vs.len() == 0 {
        Seq::empty()
    } else {
        wire_role(vs[0]) + wire_roles(vs.drop_first())
    }
}

/// The whole list with its count prefix.
pub open spec fn wire_role_list(vs: Seq<RoleView>) -> Seq<u8> {
    u64_be(vs.len() as u64) + wire_roles(vs)
}

/// How many buffer bytes a chain takes up when decoded.
pub open spec fn roles_need(vs: Seq<RoleView>) -> int
    decreases vs.len(),
{
    if vs.len() == 0 {
        0
    } else {
        role_need(vs[0]) + roles_need(vs.drop_first())
    }
}

pub open spec fn step_roles(s: Seq<u8>, cap: int, n: nat) -> Step<Seq<RoleView>>
    decreases n,
{
    if n == 0 {
        Step::Done(Seq::empty(), s, cap)
    } else {
        match step_role(s, cap) {
            Step::Done(v, s1, c1) => match step_roles(s1, c1, (n - 1) as nat) {
                Step::Done(vs, s2, c2) => Step::Done(seq![v] + vs, s2, c2),
                Step::Fail(e) => Step::Fail(e),
            },
            Step::Fail(e) => Step::Fail(e),
        }
    }
}

pub open spec fn step_role_list(s: Seq<u8>, cap: int) -> Step<Seq<RoleView>> {
    match parse_usize(s) {
        None => Step::Fail(Error::Decode),
        Some((n, r1)) => step_roles(r1, cap, n as nat),
    }
}

pub proof fn lemma_roles_need_nonneg(vs: Seq<RoleView>)
    ensures
        roles_need(vs) >= 0,
    decreases vs.len(),
{
    if vs.len() > 0 {
        lemma_roles_need_nonneg(vs.drop_first());
    }
}

#[verifier::rlimit(50)]
#[verifier::spinoff_prover]
pub proof fn lemma_step_roles(vs: Seq<RoleView>, rest: Seq<u8>, cap: int)
    requires
        roles_need(vs) <= cap,
        cap <= usize::MAX,
    ensures
        step_roles(wire_roles(vs) + rest, cap, vs.len() as nat) == Step::Done(
            vs,
            rest,
            cap - roles_need(vs),
        ),
    decreases vs.len(),
{
    if vs.len() == 0 {
        assert(wire_roles(vs) + rest =~= rest);
        assert(vs =~= Seq::<RoleView>::empty());
    } else {
        let head = vs[0];
        let tail = vs.drop_first();
        lemma_roles_need_nonneg(tail);
        let tail_wire = wire_roles(tail) + rest;
        assert(wire_roles(vs) + rest =~= wire_role(head) + tail_wire);
        lemma_step_role(head, tail_wire, cap);
        lemma_step_roles(tail, rest, cap - role_need(head));
        assert(seq![head] + tail =~= vs);
    }
}

pub proof fn lemma_step_role_list(vs: Seq<RoleView>, rest: Seq<u8>, cap: int)
    requires
        roles_need(vs) <= cap,
        cap <= usize::MAX,
        vs.len() <= usize::MAX,
    ensures
        step_role_list(wire_role_list(vs) + rest, cap) == Step::Done(
            vs,
            rest,
            cap - roles_need(vs),
        ),
{
    let tail = wire_roles(vs) + rest;
    assert(wire_role_list(vs) + rest =~= crate::wire::usize_be(vs.len() as usize) + tail);
    crate::wire::lemma_parse_usize(vs.len() as usize, tail);
    lemma_step_roles(vs, rest, cap);
}

pub proof fn lemma_wire_roles_snoc(vs: Seq<RoleView>, v: RoleView)
    ensures
        wire_roles(vs.push(v)) == wire_roles(vs) + wire_role(v),
    decreases vs.len(),
{
    if vs.len() == 0 {
        assert(vs.push(v).drop_first() =~= Seq::<RoleView>::empty());
        assert(wire_roles(Seq::<RoleView>::empty()) =~= Seq::<u8>::empty());
        assert(vs.push(v)[0] == v);
        assert(wire_roles(vs.push(v)) =~= wire_role(v));
        assert(wire_roles(vs) + wire_role(v) =~= wire_role(v));
    } else {
        assert(vs.push(v).drop_first() =~= vs.drop_first().push(v));
        lemma_wire_roles_snoc(vs.drop_first(), v);
        assert(wire_roles(vs.push(v)) =~= wire_roles(vs) + wire_role(v));
    }
}

/// Reads the `u64` count, then that many roles.
pub fn decode_roles(reader: &mut Reader, buffer: &mut OwnedImpl) -> (r: Result<Vec<Role>, Error>)
    requires
        old(reader).wf(),
        old(buffer).wf(),
        old(buffer).filled == 0,
    ensures
        final(reader).wf(),
        final(reader).data == old(reader).data,
        final(buffer).wf(),
        final(buffer).filled == 0,
        match r {
            Ok(v) => step_role_list(old(reader).rem(), old(buffer).cap()) == Step::Done(
                roles_view(v@),
                final(reader).rem(),
                final(buffer).cap(),
            ),
            Err(e) => step_role_list(old(reader).rem(), old(buffer).cap()) == Step::<
                Seq<RoleView>,
            >::Fail(e),
        },
{
    let n = reader.read_usize()?;
    let ghost s0 = reader.rem();
    let ghost c0 = buffer.cap();
    let mut out: Vec<Role> = Vec::new();
    let mut i: usize = 0;
    while i < n
        invariant
            i <= n,
            reader.wf(),
            reader.data == old(reader).data,
            buffer.wf(),
            buffer.filled == 0,
            out@.len() == i,
            parse_usize(old(reader).rem()) == Some((n, s0)),
            c0 == old(buffer).cap(),
            (match step_roles(reader.rem(), buffer.cap(), (n - i) as nat) {
                Step::Done(vs, s2, c2) => step_roles(s0, c0, n as nat) == Step::Done(
                    roles_view(out@) + vs,
                    s2,
                    c2,
                ),
                Step::Fail(e) => step_roles(s0, c0, n as nat) == Step::<Seq<RoleView>>::Fail(e),
            }),
        decreases n - i,
    {
        let ghost out_before = out@;
        let ghost rem_in = reader.rem();
        let ghost cap_in = buffer.cap();
        let ghost k = (n - i) as nat;
        let role = match Role::decode_owned(reader, buffer) {
            Ok(role) => role,
            Err(e) => {
                proof {
                    assert(step_roles(rem_in, cap_in, k) == Step::<Seq<RoleView>>::Fail(e));
                }
                return Err(e);
            },
        };
        out.push(role);
        i = i + 1;
        proof {
            assert(step_roles(rem_in, cap_in, k) == (match step_roles(
                reader.rem(),
                buffer.cap(),
                (k - 1) as nat,
            ) {
                Step::Done(vs, s2, c2) => Step::Done(seq![role@] + vs, s2, c2),
                Step::Fail(e) => Step::<Seq<RoleView>>::Fail(e),
            }));
            assert(roles_view(out@) =~= roles_view(out_before).push(role@));
            assert forall|vs: Seq<RoleView>|
                roles_view(out_before) + (seq![role@] + vs) == roles_view(out@) + vs by {
                assert(roles_view(out_before) + (seq![role@] + vs) =~= roles_view(out@) + vs);
            }
        }
    }
    proof {
        assert(roles_view(out@) + Seq::<RoleView>::empty() =~= roles_view(out@));
    }
    Ok(out)
}

/// Writes the `u64` count, then each role in order.
pub fn encode_roles(roles: &Vec<Role>, writer: &mut Vec<u8>) -> (r: Result<(), Error>)
    ensures
        r is Ok,
        final(writer)@ == old(writer)@ + wire_role_list(roles_view(roles@)),
{
    emit_u64(writer, roles.len() as u64);
    let n = roles.len();
    let mut i: usize = 0;
    while i < n
        invariant
            i <= n,
            n == roles@.len(),
            writer@ == old(writer)@ + u64_be(roles@.len() as u64) + wire_roles(
                roles_view(roles@).take(i as int),
            ),
        decreases n - i,
    {
        let role = &roles[i];
        role.encode(writer)?;
        i = i + 1;
        proof {
            lemma_wire_roles_snoc(roles_view(roles@).take(i - 1), roles@[i - 1]@);
            assert(roles_view(roles@).take(i as int) =~= roles_view(roles@).take(i - 1).push(
                roles@[i - 1]@,
            ));
            assert(writer@ =~= old(writer)@ + u64_be(roles@.len() as u64) + wire_roles(
                roles_view(roles@).take(i as int),
            ));
        }
    }
    proof {
        assert(roles_view(roles@).take(n as int) =~= roles_view(roles@));
        assert(writer@ =~= old(writer)@ + wire_role_list(roles_view(roles@)));
    }
    Ok(())
}

// ---------------------------------------------------------------------------
// Position: where a node stands in the chain. On the wire: a tag byte in
// `1..=6`, then the variant's fields.
// ---------------------------------------------------------------------------

#[derive(Debug, Clone, PartialEq, Eq)]
pub enum Position {
    Head { next: ByteStr },
    Middle { next: ByteStr },
    Tail { candidate: Option<ByteStr> },
    Candidate,
    Frontend { head: Option<ByteStr>, tail: Option<ByteStr> },
    Observer { chain: Vec<Role> },
}

/// The byte strings a position carries.
pub enum PositionView {
    Head { next: Seq<u8> },
    Middle { next: Seq<u8> },
    Tail { candidate: Option<Seq<u8>> },
    Candidate,
    Frontend { head: Option<Seq<u8>>, tail: Option<Seq<u8>> },
    Observer { chain: Seq<RoleView> },
}

impl View for Position {
    type V = PositionView;

    open spec fn view(&self) -> PositionView {
        match self {
            Position::Head { next } => PositionView::Head { next: next@ },
            Position::Middle { next } => PositionView::Middle { next: next@ },
            Position::Tail { candidate } => PositionView::Tail {
                candidate: opt_str_view(*candidate),
            },
            Position::Candidate => PositionView::Candidate,
            Position::Frontend { head, tail } => PositionView::Frontend {
                head: opt_str_view(*head),
                tail: opt_str_view(*tail),
            },
            Position::Observer { chain } => PositionView::Observer { chain: roles_view(chain@) },
        }
    }
}

pub open spec fn wire_position(v: PositionView) -> Seq<u8> {
    match v {
        PositionView::Head { next } => seq![1u8] + wire_bytes(next),
        PositionView::Middle { next } => seq![2u8] + wire_bytes(next),
        PositionView::Tail { candidate } => seq![3u8] + wire_opt_bytes(candidate),
        PositionView::Candidate => seq![4u8],
        PositionView::Frontend { head, tail } => seq![5u8] + wire_opt_bytes(head)
            + wire_opt_bytes(tail),
        PositionView::Observer { chain } => seq![6u8] + wire_role_list(chain),
    }
}

/// How many buffer bytes a position takes up when decoded.
pub open spec fn position_need(v: PositionView) -> int {
    match v {
        PositionView::Head { next } => next.len() as int,
        PositionView::Middle { next } => next.len() as int,
        PositionView::Tail { candidate } => opt_len(candidate),
        PositionView::Candidate => 0,
        PositionView::Frontend { head, tail } => opt_len(head) + opt_len(tail),
        PositionView::Observer { chain } => roles_need(chain),
    }
}

pub open spec fn step_position(s: Seq<u8>, cap: int) -> Step<PositionView> {
    match parse_u8(s) {
        None => Step::Fail(Error::Decode),
        Some((tag, r1)) => if tag == 1 {
            match step_bytes(r1, cap) {
                Step::Done(b, r2, c2) => Step::Done(PositionView::Head { next: b }, r2, c2),
                Step::Fail(e) => Step::Fail(e),
            }
        } else if tag == 2 {
            match step_bytes(r1, cap) {
                Step::Done(b, r2, c2) => Step::Done(PositionView::Middle { next: b }, r2, c2),
                Step::Fail(e) => Step::Fail(e),
            }
        } else if tag == 3 {
            match step_opt_bytes(r1, cap) {
                Step::Done(o, r2, c2) => Step::Done(PositionView::Tail { candidate: o }, r2, c2),
                Step::Fail(e) => Step::Fail(e),
            }
        } else if tag == 4 {
            Step::Done(PositionView::Candidate, r1, cap)
        } else if tag == 5 {
            match step_opt_bytes(r1, cap) {
                Step::Done(h, r2, c2) => match step_opt_bytes(r2, c2) {
                    Step::Done(t, r3, c3) => Step::Done(
                    PositionView::Frontend { head: h, tail: t },
                    r3,
                    c3,
                    ),
                    Step::Fail(e) => Step::Fail(e),
                },
                Step::Fail(e) => Step::Fail(e),
            }
        } else if tag == 6 {
            match step_role_list(r1, cap) {
                Step::Done(chain, r2, c2) => Step::Done(
                PositionView::Observer { chain },
                r2,
                c2,
                ),
                Step::Fail(e) => Step::Fail(e),
            }
        } else {
            Step::Fail(Error::SystemBadPosition(tag))
        },
    }
}

#[verifier::rlimit(100)]
#[verifier::spinoff_prover]
pub proof fn lemma_step_position(v: PositionView, rest: Seq<u8>, cap: int)
    requires
        position_need(v) <= cap,
        cap <= usize::MAX,
        (v matches PositionView::Observer { chain } ==> chain.len() <= usize::MAX),
    ensures
        step_position(wire_position(v) + rest, cap) == Step::Done(
            v,
            rest,
            cap - position_need(v),
        ),
{
    match v {
        PositionView::Head { next } => {
            let tail = wire_bytes(next) + rest;
            assert(wire_position(v) + rest =~= seq![1u8] + tail);
            crate::wire::lemma_parse_u8(1u8, tail);
            crate::buffer::data::lemma_step_bytes(next, rest, cap);
        },
        PositionView::Middle { next } => {
            let tail = wire_bytes(next) + rest;
            assert(wire_position(v) + rest =~= seq![2u8] + tail);
            crate::wire::lemma_parse_u8(2u8, tail);
            crate::buffer::data::lemma_step_bytes(next, rest, cap);
        },
        PositionView::Tail { candidate } => {
            let tail = wire_opt_bytes(candidate) + rest;
            assert(wire_position(v) + rest =~= seq![3u8] + tail);
            crate::wire::lemma_parse_u8(3u8, tail);
            crate::buffer::data::lemma_step_opt_bytes(candidate, rest, cap);
        },
        PositionView::Candidate => {
            assert(wire_position(v) + rest =~= seq![4u8] + rest);
            crate::wire::lemma_parse_u8(4u8, rest);
        },
        PositionView::Frontend { head, tail } => {
            let after_tag = wire_opt_bytes(head) + (wire_opt_bytes(tail) + rest);
            assert(wire_position(v) + rest =~= seq![5u8] + after_tag);
            crate::wire::lemma_parse_u8(5u8, after_tag);
            crate::buffer::data::lemma_step_opt_bytes(head, wire_opt_bytes(tail) + rest, cap);
            crate::buffer::data::lemma_step_opt_bytes(tail, rest, cap - opt_len(head));
        },
        PositionView::Observer { chain } => {
            let after_tag = wire_role_list(chain) + rest;
            assert(wire_position(v) + rest =~= seq![6u8] + after_tag);
            crate::wire::lemma_parse_u8(6u8, after_tag);
            lemma_step_role_list(chain, rest, cap);
        },
    }
}

impl Position {
    /// How many bytes this position takes on the wire.
    pub fn encode_len(&self) -> (r: usize)
        requires
            wire_position(self@).len() <= usize::MAX,
        ensures
            r == wire_position(self@).len(),
    {
        match self {
            Position::Head { next } => 9 + next.len(),
            Position::Middle { next } => 9 + next.len(),
            Position::Tail { candidate } => match candidate {
                Some(c) => 10 + c.len(),
                None => 2,
            },
            Position::Candidate => 1,
            Position::Frontend { head, tail } => {
                let h: usize = match head {
                    Some(c) => 9 + c.len(),
                    None => 1,
                };
                let t: usize = match tail {
                    Some(c) => 9 + c.len(),
                    None => 1,
                };
                1 + h + t
            },
            Position::Observer { chain } => {
                let n = chain.len();
                let mut total: usize = 9;
                let mut i: usize = 0;
                proof {
                    assert(wire_roles(roles_view(chain@).take(0)) =~= Seq::<u8>::empty());
                }
                while i < n
                    invariant
                        i <= n,
                        n == chain@.len(),
                        total == 9 + wire_roles(roles_view(chain@).take(i as int)).len(),
                        wire_position(
                            PositionView::Observer { chain: roles_view(chain@) },
                        ).len() <= usize::MAX,
                    decreases n - i,
                {
                    proof {
                        lemma_wire_roles_snoc(roles_view(chain@).take(i as int), chain@[i as int]@);
                        assert(roles_view(chain@).take(i + 1) =~= roles_view(chain@).take(
                            i as int,
                        ).push(chain@[i as int]@));
                        lemma_wire_roles_take_len(roles_view(chain@), i + 1);
                    }
                    let role = &chain[i];
                    let extra = role.encode_len();
                    total = total + extra;
                    i = i + 1;
                }
                proof {
                    assert(roles_view(chain@).take(n as int) =~= roles_view(chain@));
                }
                total
            },
        }
    }

    /// Reads the tag byte, then the variant's fields. A tag outside `1..=6`
    /// is reported after exactly that one byte.
    pub fn decode_owned(reader: &mut Reader, buffer: &mut OwnedImpl) -> (r: Result<Position, Error>)
        requires
            old(reader).wf(),
            old(buffer).wf(),
            old(buffer).filled == 0,
        ensures
            final(reader).wf(),
            final(reader).data == old(reader).data,
            final(buffer).wf(),
            final(buffer).filled == 0,
            match r {
                Ok(position) => step_position(old(reader).rem(), old(buffer).cap()) == Step::Done(
                    position@,
                    final(reader).rem(),
                    final(buffer).cap(),
                ),
                Err(e) => step_position(old(reader).rem(), old(buffer).cap()) == Step::<
                    PositionView,
                >::Fail(e),
            },
            (match parse_u8(old(reader).rem()) {
                Some((tag, rest)) => 1 <= tag <= 6 || (r == Err::<Position, Error>(
                    Error::SystemBadPosition(tag),
                ) && final(reader).rem() == rest),
                None => true,
            }),
    {
        let tag = reader.read_u8()?;
        if tag == 1 {
            let next = ByteStr::decode_owned(reader, buffer)?;
            Ok(Position::Head { next })
        } else if tag == 2 {
            let next = ByteStr::decode_owned(reader, buffer)?;
            Ok(Position::Middle { next })
        } else if tag == 3 {
            let candidate = decode_opt_byte_str(reader, buffer)?;
            Ok(Position::Tail { candidate })
        } else if tag == 4 {
            Ok(Position::Candidate)
        } else if tag == 5 {
            let head = decode_opt_byte_str(reader, buffer)?;
            let tail = decode_opt_byte_str(reader, buffer)?;
            Ok(Position::Frontend { head, tail })
        } else if tag == 6 {
            let chain = decode_roles(reader, buffer)?;
            Ok(Position::Observer { chain })
        } else {
            Err(Error::SystemBadPosition(tag))
        }
    }

    /// Writes the tag byte, then the variant's fields.
    pub fn encode(&self, writer: &mut Vec<u8>) -> (r: Result<(), Error>)
        ensures
            r is Ok,
            final(writer)@ == old(writer)@ + wire_position(self@),
    {
        match self {
            Position::Head { next } => {
                emit_u8(writer, 1);
                next.encode(writer)?;
            },
            Position::Middle { next } => {
                emit_u8(writer, 2);
                next.encode(writer)?;
            },
            Position::Tail { candidate } => {
                emit_u8(writer, 3);
                encode_opt_byte_str(candidate, writer)?;
            },
            Position::Candidate => {
                emit_u8(writer, 4);
            },
            Position::Frontend { head, tail } => {
                emit_u8(writer, 5);
                encode_opt_byte_str(head, writer)?;
                encode_opt_byte_str(tail, writer)?;
            },
            Position::Observer { chain } => {
                emit_u8(writer, 6);
                encode_roles(chain, writer)?;
            },
        }
        proof {
            assert(writer@ =~= old(writer)@ + wire_position(self@));
        }
        Ok(())
    }
}

/// The wire length of a prefix of a chain never passes the whole chain's.
pub proof fn lemma_wire_roles_take_len(vs: Seq<RoleView>, i: int)
    requires
        0 <= i <= vs.len(),
    ensures
        wire_roles(vs.take(i)).len() <= wire_roles(vs).len(),
    decreases vs.len() - i,
{
    if i == vs.len() {
        assert(vs.take(i) =~= vs);
    } else {
        lemma_wire_roles_snoc(vs.take(i), vs[i]);
        assert(vs.take(i + 1) =~= vs.take(i).push(vs[i]));
        lemma_wire_roles_take_len(vs, i + 1);
    }
}

/// The `Report` message of the wire protocol.
#[derive(Debug, Clone, PartialEq, Eq)]
pub struct Report {
    pub header: Header,
    pub position: Position,
}

/// The body bytes of a `Report`.
pub open spec fn wire_report_body(position: PositionView) -> Seq<u8> {
    wire_position(position)
}

/// Reading a `Report` body off the front of a byte string.
pub open spec fn step_report_body(s0: Seq<u8>, c0: int) -> Step<PositionView> {
    match step_position(s0, c0) {
        Step::Done(v0, s1, c1) => Step::Done(v0, s1, c1),
        Step::Fail(e) => Step::Fail(e),
    }
}

#[verifier::rlimit(50)]
#[verifier::spinoff_prover]
pub proof fn lemma_step_report_body(position: PositionView, rest: Seq<u8>, cap: int)
    requires
        position_need(position) <= cap,
        cap <= usize::MAX,
        (position matches PositionView::Observer { chain } ==> chain.len() <= usize::MAX),
    ensures
        step_report_body(wire_report_body(position) + rest, cap) == Step::Done(position, rest, cap - (position_need(position))),
{
    lemma_position_need_nonneg(position);
    assert(wire_report_body(position) + rest =~= wire_position(position) + (rest));
    lemma_step_position(position, rest, cap);
}

impl Report {
    /// Builds the request; the header's `len` is the exact byte count
    /// of the body that `encode` will write after the header.
    pub fn new(version: u8, uuid: u128, position: Position) -> (r: Report)
        requires
            wire_report_body(position@).len() <= usize::MAX,
        ensures
            r.header.kind == Kind::Report,
            r.header.version == Version(version),
            r.header.uuid == Uuid(uuid),
            r.header.len == wire_report_body(position@).len(),
            r.position == position,
    {
        let position_len = position.encode_len();
        let len: usize = position_len;
        Report { header: Header::new(Kind::Report, version, uuid, len), position }
    }

    pub fn header(&self) -> (r: Header)
        ensures
            r == self.header,
    {
        self.header
    }

    pub fn position(&self) -> (r: &Position)
        ensures
            r == &self.position,
    {
        &self.position
    }

    /// The all-clear ack, keeping this request's version and uuid.
    pub fn ack(self) -> (r: ReportAck)
        ensures
            r.header.kind == Kind::ReportAck,
            r.header.version == self.header.version,
            r.header.uuid == self.header.uuid,
            r.header.len == wire_report_ack_body(r.response@).len(),
            r.response.code == SUCCESS,
            r.response.reason is None,
    {
        let response = Response::success();
        let len = response.encode_len();
        ReportAck {
            header: Header::new(Kind::ReportAck, self.header.version.0, self.header.uuid.0, len),
            response,
        }
    }

    /// A failure ack, keeping this request's version and uuid.
    pub fn nack(self, response_code: u8, reason: Option<ByteStr>) -> (r: ReportAck)
        requires
            (reason matches Some(b) ==> b@.len() + 10 <= usize::MAX),
        ensures
            r.header.kind == Kind::ReportAck,
            r.header.version == self.header.version,
            r.header.uuid == self.header.uuid,
            r.header.len == wire_report_ack_body(r.response@).len(),
            r.response.code == response_code,
            r.response.reason == reason,
    {
        let response = Response::fail(response_code, reason);
        let len = response.encode_len();
        ReportAck {
            header: Header::new(Kind::ReportAck, self.header.version.0, self.header.uuid.0, len),
            response,
        }
    }

    /// Decodes the body once the header is in hand; the header must carry
    /// this message's kind.
    pub fn decode(header: Header, reader: &mut Reader, buffer: &mut OwnedImpl) -> (r: Result<
        Report,
        Error,
    >)
        requires
            header.kind == Kind::Report,
            old(reader).wf(),
            old(buffer).wf(),
            old(buffer).filled == 0,
        ensures
            final(reader).wf(),
            final(reader).data == old(reader).data,
            final(buffer).wf(),
            final(buffer).filled == 0,
            match r {
                Ok(m) => m.header == header && step_report_body(
                    old(reader).rem(),
                    old(buffer).cap(),
                ) == Step::Done(m.position@, final(reader).rem(), final(buffer).cap()),
                Err(e) => step_report_body(old(reader).rem(), old(buffer).cap()) == Step::<
                    PositionView,
                >::Fail(e),
            },
    {
        let position = Position::decode_owned(reader, buffer)?;
        Ok(Report { header, position })
    }

    /// Writes the header, then the body fields in order.
    pub fn encode(&self, writer: &mut Vec<u8>) -> (r: Result<(), Error>)
        ensures
            r is Ok,
            final(writer)@ == old(writer)@ + wire_header(self.header) + wire_report_body(
                self.position@,
            ),
    {
        self.header.encode(writer)?;
        self.position.encode(writer)?;
        proof {
            assert(writer@ =~= old(writer)@ + wire_header(self.header) + wire_report_body(
                self.position@,
            ));
        }
        Ok(())
    }
}


/// The `ReportAck` message of the wire protocol.
#[derive(Debug, Clone, PartialEq, Eq)]
pub struct ReportAck {
    pub header: Header,
    pub response: Response,
}

/// The body bytes of a `ReportAck`.
pub open spec fn wire_report_ack_body(response: (u8, Option<Seq<u8>>)) -> Seq<u8> {
    wire_resp(response)
}

/// Reading a `ReportAck` body off the front of a byte string.
pub open spec fn step_report_ack_body(s0: Seq<u8>, c0: int) -> Step<(u8, Option<Seq<u8>>)> {
    match step_resp(s0, c0) {
        Step::Done(v0, s1, c1) => Step::Done(v0, s1, c1),
        Step::Fail(e) => Step::Fail(e),
    }
}

#[verifier::rlimit(50)]
#[verifier::spinoff_prover]
pub proof fn lemma_step_report_ack_body(response: (u8, Option<Seq<u8>>), rest: Seq<u8>, cap: int)
    requires
        opt_len(response.1) <= cap,
        cap <= usize::MAX,
    ensures
        step_report_ack_body(wire_report_ack_body(response) + rest, cap) == Step::Done(response, rest, cap - (opt_len(response.1))),
{
    assert(wire_report_ack_body(response) + rest =~= wire_resp(response) + (rest));
    crate::response::lemma_step_resp(response, rest, cap);
}

impl ReportAck {
    pub fn header(&self) -> (r: Header)
        ensures
            r == self.header,
    {
        self.header
    }

    /// An ack assembled outside any request, with a fixed test header.
    pub fn new(response: Response) -> (r: ReportAck)
        requires
            wire_resp(response@).len() <= usize::MAX,
        ensures
            r.header.kind == Kind::ReportAck,
            r.header.len == wire_report_ack_body(response@).len(),
            r.response == response,
    {
        let len = response.encode_len();
        ReportAck { header: Header::new(Kind::ReportAck, 1, 1, len), response }
    }


    /// Decodes the body once the header is in hand; the header must carry
    /// this message's kind.
    pub fn decode(header: Header, reader: &mut Reader, buffer: &mut OwnedImpl) -> (r: Result<
        ReportAck,
        Error,
    >)
        requires
            header.kind == Kind::ReportAck,
            old(reader).wf(),
            old(buffer).wf(),
            old(buffer).filled == 0,
        ensures
            final(reader).wf(),
            final(reader).data == old(reader).data,
            final(buffer).wf(),
            final(buffer).filled == 0,
            match r {
                Ok(m) => m.header == header && step_report_ack_body(
                    old(reader).rem(),
                    old(buffer).cap(),
                ) == Step::Done(m.response@, final(reader).rem(), final(buffer).cap()),
                Err(e) => step_report_ack_body(old(reader).rem(), old(buffer).cap()) == Step::<
                    (u8, Option<Seq<u8>>),
                >::Fail(e),
            },
    {
        let response = Response::decode_owned(reader, buffer)?;
        Ok(ReportAck { header, response })
    }

    /// Writes the header, then the body fields in order.
    pub fn encode(&self, writer: &mut Vec<u8>) -> (r: Result<(), Error>)
        ensures
            r is Ok,
            final(writer)@ == old(writer)@ + wire_header(self.header) + wire_report_ack_body(
                self.response@,
            ),
    {
        self.header.encode(writer)?;
        self.response.encode(writer)?;
        proof {
            assert(writer@ =~= old(writer)@ + wire_header(self.header) + wire_report_ack_body(
                self.response@,
            ));
        }
        Ok(())
    }
}

impl crate::Ack for ReportAck {
    open spec fn spec_header(&self) -> Header {
        self.header
    }

    open spec fn spec_response(&self) -> (u8, Option<Seq<u8>>) {
        self.response@
    }

    fn header(&self) -> (r: &Header) {
        &self.header
    }

    fn response(&self) -> (r: Response) {
        self.response.clone()
    }
}


/// The `Join` message of the wire protocol.
#[derive(Debug, Clone, PartialEq, Eq)]
pub struct Join {
    pub header: Header,
    pub role: Role,
    pub instance: u128,
    pub successor_lost: bool,
}

/// The body bytes of a `Join`.
pub open spec fn wire_join_body(role: RoleView, instance: u128, successor_lost: bool) -> Seq<u8> {
    wire_role(role) + u128_be(instance) + seq![bool_byte(successor_lost)]
}

/// Reading a `Join` body off the front of a byte string.
pub open spec fn step_join_body(s0: Seq<u8>, c0: int) -> Step<(RoleView, u128, bool)> {
    match step_role(s0, c0) {
        Step::Done(v0, s1, c1) => match parse_u128(s1) {
            None => Step::Fail(Error::Decode),
            Some((v1, s2)) => {
                let c2 = c1;
                match parse_u8(s2) {
                    None => Step::Fail(Error::Decode),
                    Some((v2b, s3)) => {
                        let v2 = v2b != 0;
                        let c3 = c2;
                        Step::Done((v0, v1, v2), s3, c3)
                    },
                }
            },
        },
        Step::Fail(e) => Step::Fail(e),
    }
}

#[verifier::rlimit(50)]
#[verifier::spinoff_prover]
pub proof fn lemma_step_join_body(role: RoleView, instance: u128, successor_lost: bool, rest: Seq<u8>, cap: int)
    requires
        role_need(role) <= cap,
        cap <= usize::MAX,
    ensures
        step_join_body(wire_join_body(role, instance, successor_lost) + rest, cap) == Step::Done((role, instance, successor_lost), rest, cap - (role_need(role))),
{
    assert(wire_join_body(role, instance, successor_lost) + rest =~= wire_role(role) + (u128_be(instance) + (seq![bool_byte(successor_lost)] + (rest))));
    lemma_step_role(role, u128_be(instance) + (seq![bool_byte(successor_lost)] + (rest)), cap);
    crate::wire::lemma_parse_u128(instance, seq![bool_byte(successor_lost)] + (rest));
    crate::wire::lemma_parse_u8(bool_byte(successor_lost), rest);
}

impl Join {
    /// Builds the request; the header's `len` is the exact byte count
    /// of the body that `encode` will write after the header.
    pub fn new(version: u8, uuid: u128, role: Role, instance: u128, successor_lost: bool) -> (r: Join)
        requires
            wire_join_body(role@, instance, successor_lost).len() <= usize::MAX,
        ensures
            r.header.kind == Kind::Join,
            r.header.version == Version(version),
            r.header.uuid == Uuid(uuid),
            r.header.len == wire_join_body(role@, instance, successor_lost).len(),
            r.role == role,
            r.instance == instance,
            r.successor_lost == successor_lost,
    {
        let role_len = role.encode_len();
        let len: usize = role_len + 16 + 1;
        Join { header: Header::new(Kind::Join, version, uuid, len), role, instance, successor_lost }
    }

    pub fn header(&self) -> (r: Header)
        ensures
            r == self.header,
    {
        self.header
    }

    pub fn role(&self) -> (r: &Role)
        ensures
            r == &self.role,
    {
        &self.role
    }

    /// The joining node's store version.
    pub fn store_version(&self) -> (r: u128)
        ensures
            r == self.instance,
    {
        self.instance
    }

    pub fn successor_lost(&self) -> (r: bool)
        ensures
            r == self.successor_lost,
    {
        self.successor_lost
    }

    /// The address the role carries, when it carries one.
    pub fn addr(&self) -> (r: Option<&ByteStr>)
        ensures
            match self.role {
                Role::Backend(_) | Role::Frontend(_) => r is Some,
                Role::Observer => r is None,
            },
            (match self.role {
                Role::Backend(addr) => r matches Some(a) && a@ == addr@,
                Role::Frontend(addr) => r matches Some(a) && a@ == addr@,
                Role::Observer => r is None,
            }),
    {
        match &self.role {
            Role::Backend(addr) => Some(addr),
            Role::Frontend(addr) => Some(addr),
            Role::Observer => None,
        }
    }

    /// The all-clear ack, keeping this request's version and uuid.
    pub fn ack(self) -> (r: JoinAck)
        ensures
            r.header.kind == Kind::JoinAck,
            r.header.version == self.header.version,
            r.header.uuid == self.header.uuid,
            r.header.len == wire_join_ack_body(r.response@).len(),
            r.response.code == SUCCESS,
            r.response.reason is None,
    {
        let response = Response::success();
        let len = response.encode_len();
        JoinAck {
            header: Header::new(Kind::JoinAck, self.header.version.0, self.header.uuid.0, len),
            response,
        }
    }

    /// A failure ack, keeping this request's version and uuid.
    pub fn nack(self, response_code: u8, reason: Option<ByteStr>) -> (r: JoinAck)
        requires
            (reason matches Some(b) ==> b@.len() + 10 <= usize::MAX),
        ensures
            r.header.kind == Kind::JoinAck,
            r.header.version == self.header.version,
            r.header.uuid == self.header.uuid,
            r.header.len == wire_join_ack_body(r.response@).len(),
            r.response.code == response_code,
            r.response.reason == reason,
    {
        let response = Response::fail(response_code, reason);
        let len = response.encode_len();
        JoinAck {
            header: Header::new(Kind::JoinAck, self.header.version.0, self.header.uuid.0, len),
            response,
        }
    }

    /// Decodes the body once the header is in hand; the header must carry
    /// this message's kind.
    pub fn decode(header: Header, reader: &mut Reader, buffer: &mut OwnedImpl) -> (r: Result<
        Join,
        Error,
    >)
        requires
            header.kind == Kind::Join,
            old(reader).wf(),
            old(buffer).wf(),
            old(buffer).filled == 0,
        ensures
            final(reader).wf(),
            final(reader).data == old(reader).data,
            final(buffer).wf(),
            final(buffer).filled == 0,
            match r {
                Ok(m) => m.header == header && step_join_body(
                    old(reader).rem(),
                    old(buffer).cap(),
                ) == Step::Done((m.role@, m.instance, m.successor_lost), final(reader).rem(), final(buffer).cap()),
                Err(e) => step_join_body(old(reader).rem(), old(buffer).cap()) == Step::<
                    (RoleView, u128, bool),
                >::Fail(e),
            },
    {
        let role = Role::decode_owned(reader, buffer)?;
        let instance = reader.read_u128()?;
        let successor_lost_byte = reader.read_u8()?;
        let successor_lost = successor_lost_byte != 0;
        Ok(Join { header, role, instance, successor_lost })
    }

    /// Writes the header, then the body fields in order.
    pub fn encode(&self, writer: &mut Vec<u8>) -> (r: Result<(), Error>)
        ensures
            r is Ok,
            final(writer)@ == old(writer)@ + wire_header(self.header) + wire_join_body(
                self.role@, self.instance, self.successor_lost,
            ),
    {
        self.header.encode(writer)?;
        self.role.encode(writer)?;
        emit_u128(writer, self.instance);
        emit_u8(writer, if self.successor_lost { 1 } else { 0 });
        proof {
            assert(writer@ =~= old(writer)@ + wire_header(self.header) + wire_join_body(
                self.role@, self.instance, self.successor_lost,
            ));
        }
        Ok(())
    }
}


/// The `JoinAck` message of the wire protocol.
#[derive(Debug, Clone, PartialEq, Eq)]
pub struct JoinAck {
    pub header: Header,
    pub response: Response,
}

/// The body bytes of a `JoinAck`.
pub open spec fn wire_join_ack_body(response: (u8, Option<Seq<u8>>)) -> Seq<u8> {
    wire_resp(response)
}

/// Reading a `JoinAck` body off the front of a byte string.
pub open spec fn step_join_ack_body(s0: Seq<u8>, c0: int) -> Step<(u8, Option<Seq<u8>>)> {
    match step_resp(s0, c0) {
        Step::Done(v0, s1, c1) => Step::Done(v0, s1, c1),
        Step::Fail(e) => Step::Fail(e),
    }
}

#[verifier::rlimit(50)]
#[verifier::spinoff_prover]
pub proof fn lemma_step_join_ack_body(response: (u8, Option<Seq<u8>>), rest: Seq<u8>, cap: int)
    requires
        opt_len(response.1) <= cap,
        cap <= usize::MAX,
    ensures
        step_join_ack_body(wire_join_ack_body(response) + rest, cap) == Step::Done(response, rest, cap - (opt_len(response.1))),
{
    assert(wire_join_ack_body(response) + rest =~= wire_resp(response) + (rest));
    crate::response::lemma_step_resp(response, rest, cap);
}

impl JoinAck {
    pub fn header(&self) -> (r: Header)
        ensures
            r == self.header,
    {
        self.header
    }

    /// An ack assembled outside any request, carrying the request's uuid.
    pub fn new(response: Response, uuid: u128) -> (r: JoinAck)
        requires
            wire_resp(response@).len() <= usize::MAX,
        ensures
            r.header.kind == Kind::JoinAck,
            r.header.uuid == Uuid(uuid),
            r.header.len == wire_join_ack_body(response@).len(),
            r.response == response,
    {
        let len = response.encode_len();
        JoinAck { header: Header::new(Kind::JoinAck, 0, uuid, len), response }
    }


    /// Decodes the body once the header is in hand; the header must carry
    /// this message's kind.
    pub fn decode(header: Header, reader: &mut Reader, buffer: &mut OwnedImpl) -> (r: Result<
        JoinAck,
        Error,
    >)
        requires
            header.kind == Kind::JoinAck,
            old(reader).wf(),
            old(buffer).wf(),
            old(buffer).filled == 0,
        ensures
            final(reader).wf(),
            final(reader).data == old(reader).data,
            final(buffer).wf(),
            final(buffer).filled == 0,
            match r {
                Ok(m) => m.header == header && step_join_ack_body(
                    old(reader).rem(),
                    old(buffer).cap(),
                ) == Step::Done(m.response@, final(reader).rem(), final(buffer).cap()),
                Err(e) => step_join_ack_body(old(reader).rem(), old(buffer).cap()) == Step::<
                    (u8, Option<Seq<u8>>),
                >::Fail(e),
            },
    {
        let response = Response::decode_owned(reader, buffer)?;
        Ok(JoinAck { header, response })
    }

    /// Writes the header, then the body fields in order.
    pub fn encode(&self, writer: &mut Vec<u8>) -> (r: Result<(), Error>)
        ensures
            r is Ok,
            final(writer)@ == old(writer)@ + wire_header(self.header) + wire_join_ack_body(
                self.response@,
            ),
    {
        self.header.encode(writer)?;
        self.response.encode(writer)?;
        proof {
            assert(writer@ =~= old(writer)@ + wire_header(self.header) + wire_join_ack_body(
                self.response@,
            ));
        }
        Ok(())
    }
}

impl crate::Ack for JoinAck {
    open spec fn spec_header(&self) -> Header {
        self.header
    }

    open spec fn spec_response(&self) -> (u8, Option<Seq<u8>>) {
        self.response@
    }

    fn header(&self) -> (r: &Header) {
        &self.header
    }

    fn response(&self) -> (r: Response) {
        self.response.clone()
    }
}


/// The `Transfer` message of the wire protocol.
#[derive(Debug, Clone, PartialEq, Eq)]
pub struct Transfer {
    pub header: Header,
    pub path: ByteStr,
    pub offset: u64,
    pub content: BinaryData,
}

/// The body bytes of a `Transfer`.
pub open spec fn wire_transfer_body(path: Seq<u8>, offset: u64, content: Seq<u8>) -> Seq<u8> {
    wire_bytes(path) + u64_be(offset) + wire_bytes(content)
}

/// Reading a `Transfer` body off the front of a byte string.
pub open spec fn step_transfer_body(s0: Seq<u8>, c0: int) -> Step<(Seq<u8>, u64, Seq<u8>)> {
    match step_bytes(s0, c0) {
        Step::Done(v0, s1, c1) => match parse_u64(s1) {
            None => Step::Fail(Error::Decode),
            Some((v1, s2)) => {
                let c2 = c1;
                match step_bytes(s2, c2) {
                    Step::Done(v2, s3, c3) => Step::Done((v0, v1, v2), s3, c3),
                    Step::Fail(e) => Step::Fail(e),
                }
            },
        },
        Step::Fail(e) => Step::Fail(e),
    }
}

#[verifier::rlimit(50)]
#[verifier::spinoff_prover]
pub proof fn lemma_step_transfer_body(path: Seq<u8>, offset: u64, content: Seq<u8>, rest: Seq<u8>, cap: int)
    requires
        path.len() + content.len() <= cap,
        cap <= usize::MAX,
    ensures
        step_transfer_body(wire_transfer_body(path, offset, content) + rest, cap) == Step::Done((path, offset, content), rest, cap - (path.len() + content.len())),
{
    assert(wire_transfer_body(path, offset, content) + rest =~= wire_bytes(path) + (u64_be(offset) + (wire_bytes(content) + (rest))));
    crate::buffer::data::lemma_step_bytes(path, u64_be(offset) + (wire_bytes(content) + (rest)), cap);
    crate::wire::lemma_parse_u64(offset, wire_bytes(content) + (rest));
    crate::buffer::data::lemma_step_bytes(content, rest, cap - path.len());
}

impl Transfer {
    /// Builds the request; the header's `len` is the exact byte count
    /// of the body that `encode` will write after the header.
    pub fn new(version: u8, uuid: u128, path: ByteStr, offset: u64, content: BinaryData) -> (r: Transfer)
        requires
            wire_transfer_body(path@, offset, content@).len() <= usize::MAX,
        ensures
            r.header.kind == Kind::Transfer,
            r.header.version == Version(version),
            r.header.uuid == Uuid(uuid),
            r.header.len == wire_transfer_body(path@, offset, content@).len(),
            r.path == path,
            r.offset == offset,
            r.content == content,
    {
        let path_len = path.len();
        let content_len = content.len();
        let len: usize = 8 + path_len + 8 + 8 + content_len;
        Transfer { header: Header::new(Kind::Transfer, version, uuid, len), path, offset, content }
    }

    pub fn header(&self) -> (r: Header)
        ensures
            r == self.header,
    {
        self.header
    }

    pub fn path(&self) -> (r: &ByteStr)
        ensures
            r == &self.path,
    {
        &self.path
    }

    pub fn offset(&self) -> (r: u64)
        ensures
            r == self.offset,
    {
        self.offset
    }

    pub fn content(&self) -> (r: &BinaryData)
        ensures
            r == &self.content,
    {
        &self.content
    }

    /// The all-clear ack, keeping this request's version and uuid.
    pub fn ack(self) -> (r: TransferAck)
        ensures
            r.header.kind == Kind::TransferAck,
            r.header.version == self.header.version,
            r.header.uuid == self.header.uuid,
            r.header.len == wire_transfer_ack_body(r.response@).len(),
            r.response.code == SUCCESS,
            r.response.reason is None,
    {
        let response = Response::success();
        let len = response.encode_len();
        TransferAck {
            header: Header::new(Kind::TransferAck, self.header.version.0, self.header.uuid.0, len),
            response,
        }
    }

    /// A failure ack, keeping this request's version and uuid.
    pub fn nack(self, response_code: u8, reason: Option<ByteStr>) -> (r: TransferAck)
        requires
            (reason matches Some(b) ==> b@.len() + 10 <= usize::MAX),
        ensures
            r.header.kind == Kind::TransferAck,
            r.header.version == self.header.version,
            r.header.uuid == self.header.uuid,
            r.header.len == wire_transfer_ack_body(r.response@).len(),
            r.response.code == response_code,
            r.response.reason == reason,
    {
        let response = Response::fail(response_code, reason);
        let len = response.encode_len();
        TransferAck {
            header: Header::new(Kind::TransferAck, self.header.version.0, self.header.uuid.0, len),
            response,
        }
    }

    /// Decodes the body once the header is in hand; the header must carry
    /// this message's kind.
    pub fn decode(header: Header, reader: &mut Reader, buffer: &mut OwnedImpl) -> (r: Result<
        Transfer,
        Error,
    >)
        requires
            header.kind == Kind::Transfer,
            old(reader).wf(),
            old(buffer).wf(),
            old(buffer).filled == 0,
        ensures
            final(reader).wf(),
            final(reader).data == old(reader).data,
            final(buffer).wf(),
            final(buffer).filled == 0,
            match r {
                Ok(m) => m.header == header && step_transfer_body(
                    old(reader).rem(),
                    old(buffer).cap(),
                ) == Step::Done((m.path@, m.offset, m.content@), final(reader).rem(), final(buffer).cap()),
                Err(e) => step_transfer_body(old(reader).rem(), old(buffer).cap()) == Step::<
                    (Seq<u8>, u64, Seq<u8>),
                >::Fail(e),
            },
    {
        let path = ByteStr::decode_owned(reader, buffer)?;
        let offset = reader.read_u64()?;
        let content = BinaryData::decode_owned(reader, buffer)?;
        Ok(Transfer { header, path, offset, content })
    }

    /// Writes the header, then the body fields in order.
    pub fn encode(&self, writer: &mut Vec<u8>) -> (r: Result<(), Error>)
        ensures
            r is Ok,
            final(writer)@ == old(writer)@ + wire_header(self.header) + wire_transfer_body(
                self.path@, self.offset, self.content@,
            ),
    {
        self.header.encode(writer)?;
        self.path.encode(writer)?;
        emit_u64(writer, self.offset);
        self.content.encode(writer)?;
        proof {
            assert(writer@ =~= old(writer)@ + wire_header(self.header) + wire_transfer_body(
                self.path@, self.offset, self.content@,
            ));
        }
        Ok(())
    }
}


/// The `TransferAck` message of the wire protocol.
#[derive(Debug, Clone, PartialEq, Eq)]
pub struct TransferAck {
    pub header: Header,
    pub response: Response,
}

/// The body bytes of a `TransferAck`.
pub open spec fn wire_transfer_ack_body(response: (u8, Option<Seq<u8>>)) -> Seq<u8> {
    wire_resp(response)
}

/// Reading a `TransferAck` body off the front of a byte string.
pub open spec fn step_transfer_ack_body(s0: Seq<u8>, c0: int) -> Step<(u8, Option<Seq<u8>>)> {
    match step_resp(s0, c0) {
        Step::Done(v0, s1, c1) => Step::Done(v0, s1, c1),
        Step::Fail(e) => Step::Fail(e),
    }
}

#[verifier::rlimit(50)]
#[verifier::spinoff_prover]
pub proof fn lemma_step_transfer_ack_body(response: (u8, Option<Seq<u8>>), rest: Seq<u8>, cap: int)
    requires
        opt_len(response.1) <= cap,
        cap <= usize::MAX,
    ensures
        step_transfer_ack_body(wire_transfer_ack_body(response) + rest, cap) == Step::Done(response, rest, cap - (opt_len(response.1))),
{
    assert(wire_transfer_ack_body(response) + rest =~= wire_resp(response) + (rest));
    crate::response::lemma_step_resp(response, rest, cap);
}

impl TransferAck {
    pub fn header(&self) -> (r: Header)
        ensures
            r == self.header,
    {
        self.header
    }

    /// An ack assembled outside any request, with a fixed test header.
    pub fn new(response: Response) -> (r: TransferAck)
        requires
            wire_resp(response@).len() <= usize::MAX,
        ensures
            r.header.kind == Kind::TransferAck,
            r.header.len == wire_transfer_ack_body(response@).len(),
            r.response == response,
    {
        let len = response.encode_len();
        TransferAck { header: Header::new(Kind::TransferAck, 1, 1, len), response }
    }


    /// Decodes the body once the header is in hand; the header must carry
    /// this message's kind.
    pub fn decode(header: Header, reader: &mut Reader, buffer: &mut OwnedImpl) -> (r: Result<
        TransferAck,
        Error,
    >)
        requires
            header.kind == Kind::TransferAck,
            old(reader).wf(),
            old(buffer).wf(),
            old(buffer).filled == 0,
        ensures
            final(reader).wf(),
            final(reader).data == old(reader).data,
            final(buffer).wf(),
            final(buffer).filled == 0,
            match r {
                Ok(m) => m.header == header && step_transfer_ack_body(
                    old(reader).rem(),
                    old(buffer).cap(),
                ) == Step::Done(m.response@, final(reader).rem(), final(buffer).cap()),
                Err(e) => step_transfer_ack_body(old(reader).rem(), old(buffer).cap()) == Step::<
                    (u8, Option<Seq<u8>>),
                >::Fail(e),
            },
    {
        let response = Response::decode_owned(reader, buffer)?;
        Ok(TransferAck { header, response })
    }

    /// Writes the header, then the body fields in order.
    pub fn encode(&self, writer: &mut Vec<u8>) -> (r: Result<(), Error>)
        ensures
            r is Ok,
            final(writer)@ == old(writer)@ + wire_header(self.header) + wire_transfer_ack_body(
                self.response@,
            ),
    {
        self.header.encode(writer)?;
        self.response.encode(writer)?;
        proof {
            assert(writer@ =~= old(writer)@ + wire_header(self.header) + wire_transfer_ack_body(
                self.response@,
            ));
        }
        Ok(())
    }
}

impl crate::Ack for TransferAck {
    open spec fn spec_header(&self) -> Header {
        self.header
    }

    open spec fn spec_response(&self) -> (u8, Option<Seq<u8>>) {
        self.response@
    }

    fn header(&self) -> (r: &Header) {
        &self.header
    }

    fn response(&self) -> (r: Response) {
        self.response.clone()
    }
}



pub proof fn lemma_position_need_nonneg(v: PositionView)
    ensures
        position_need(v) >= 0,
{
    match v {
        PositionView::Observer { chain } => {
            lemma_roles_need_nonneg(chain);
        },
        _ => {},
    }
}

/// The `Ping` liveness probe: a bare header, no body.
#[derive(Debug, Clone, PartialEq, Eq)]
pub struct Ping {
    pub header: Header,
}

impl Ping {
    /// Builds the probe; its body is empty, so the header's `len` is zero.
    pub fn new(version: u8, uuid: u128) -> (r: Ping)
        ensures
            r.header == (Header {
                kind: Kind::Ping,
                version: Version(version),
                len: 0,
                uuid: Uuid(uuid),
            }),
    {
        Ping { header: Header::new(Kind::Ping, version, uuid, 0) }
    }

    pub fn header(&self) -> (r: Header)
        ensures
            r == self.header,
    {
        self.header
    }

    /// The matching ack, keeping this probe's version and uuid.
    pub fn ack(self) -> (r: PingAck)
        ensures
            r.header == (Header {
                kind: Kind::PingAck,
                version: self.header.version,
                len: 0,
                uuid: self.header.uuid,
            }),
    {
        PingAck { header: Header::new(Kind::PingAck, self.header.version.0, self.header.uuid.0, 0) }
    }

    /// The body is empty, so decoding only adopts the header.
    pub fn decode(header: Header, reader: &mut Reader, buffer: &mut OwnedImpl) -> (r: Result<
        Ping,
        Error,
    >)
        requires
            header.kind == Kind::Ping,
            old(reader).wf(),
            old(buffer).wf(),
            old(buffer).filled == 0,
        ensures
            *final(reader) == *old(reader),
            *final(buffer) == *old(buffer),
            r matches Ok(m) && m.header == header,
    {
        Ok(Ping { header })
    }

    /// Writes the header alone.
    pub fn encode(&self, writer: &mut Vec<u8>) -> (r: Result<(), Error>)
        ensures
            r is Ok,
            final(writer)@ == old(writer)@ + wire_header(self.header),
    {
        self.header.encode(writer)
    }
}

/// The ack of a `Ping`: a bare header; its response is always the
/// all-clear.
#[derive(Debug, Clone, PartialEq, Eq)]
pub struct PingAck {
    pub header: Header,
}

impl PingAck {
    /// An ack assembled outside any request, with a fixed test header.
    pub fn new() -> (r: PingAck)
        ensures
            r.header == (Header {
                kind: Kind::PingAck,
                version: Version(1),
                len: 0,
                uuid: Uuid(1),
            }),
    {
        PingAck { header: Header::new(Kind::PingAck, 1, 1, 0) }
    }

    pub fn header(&self) -> (r: Header)
        ensures
            r == self.header,
    {
        self.header
    }

    /// The body is empty, so decoding only adopts the header.
    pub fn decode(header: Header, reader: &mut Reader, buffer: &mut OwnedImpl) -> (r: Result<
        PingAck,
        Error,
    >)
        requires
            header.kind == Kind::PingAck,
            old(reader).wf(),
            old(buffer).wf(),
            old(buffer).filled == 0,
        ensures
            *final(reader) == *old(reader),
            *final(buffer) == *old(buffer),
            r matches Ok(m) && m.header == header,
    {
        Ok(PingAck { header })
    }

    /// Writes the header alone.
    pub fn encode(&self, writer: &mut Vec<u8>) -> (r: Result<(), Error>)
        ensures
            r is Ok,
            final(writer)@ == old(writer)@ + wire_header(self.header),
    {
        self.header.encode(writer)
    }
}

impl crate::Ack for PingAck {
    open spec fn spec_header(&self) -> Header {
        self.header
    }

    open spec fn spec_response(&self) -> (u8, Option<Seq<u8>>) {
        (SUCCESS, None)
    }

    fn header(&self) -> (r: &Header) {
        &self.header
    }

    fn response(&self) -> (r: Response) {
        Response::success()
    }
}

} // verus!

use vstd::prelude::*;
use crate::cidr::CidrSet;
use crate::fast_ip::FastIpCell;
use crate::oracle::Oracle;
use domain::base::iana::{Class, Rcode};
use domain::base::{Message, MessageBuilder};
use domain::rdata::A;

verus! {

/// Record type of an IPv4 address record.
pub const QTYPE_A: u16 = 1;

/// Response code of a local answer: NoError.
pub const RCODE_NO_ERROR: u8 = 0;

/// Record class of a local answer: IN.
pub const CLASS_IN: u16 = 1;

/// What domain makes of a datagram: the record type and the name (in display
/// form, without the trailing dot) of its sole question, or nothing where the
/// message does not parse or does not hold exactly one question.
pub uninterp spec fn sole_question_of(msg: Seq<u8>) -> Option<(u16, Seq<u8>)>;

/// The answer section of an upstream response as domain reads it, record by
/// record: its type and, where its data parses as an A record, the address;
/// `None` for a record that fails to parse (the section ends there). Nothing
/// where the response or its sections before the answer do not parse.
pub uninterp spec fn answer_records_of(msg: Seq<u8>) -> Option<Seq<Option<(u16, Option<u32>)>>>;

/// The response that domain's builder makes to `query`: ID, opcode, RD and
/// question copied, QR set, the given rcode and RA bit, and one A record for
/// the question's name with the given class, TTL and address.
pub uninterp spec fn answer_of(query: Seq<u8>, rcode: u8, ra: bool, class: u16, ttl: u32, ip: u32) -> Option<Seq<u8>>;

/// Relies on domain's `Message::from_octets` and `Message::sole_question`,
/// with `Rtype::to_int` and the `Display` form of the parsed name.
#[verifier::external_body]
fn parse_sole_question(msg: &Vec<u8>) -> (r: Option<(u16, Vec<u8>)>)
    ensures
        r is None ==> sole_question_of(msg@) is None,
        r matches Some((t, n)) ==> sole_question_of(msg@) == Some((t, n@)),
{
    let m = Message::from_octets(msg.as_slice()).ok()?;
    let q = m.sole_question().ok()?;
    Some((q.qtype().to_int(), q.qname().to_string().into_bytes()))
}

/// Relies on domain's `Message::sections`, the `RecordSection` iterator,
/// `ParsedRecord::rtype` and `ParsedRecord::to_record::<A>`.
#[verifier::external_body]
fn answer_records(msg: &Vec<u8>) -> (r: Option<Vec<Option<(u16, Option<u32>)>>>)
    ensures
        r is None ==> answer_records_of(msg@) is None,
        r matches Some(v) ==> answer_records_of(msg@) == Some(v@),
{
    let m = Message::from_octets(msg.as_slice()).ok()?;
    let (_, answer, _, _) = m.sections().ok()?;
    let mut out = Vec::new();
    for item in answer {
        out.push(match item {
            Ok(rr) => Some((rr.rtype().to_int(), match rr.to_record::<A>() {
                Ok(Some(a)) => Some(u32::from(a.data().addr())),
                _ => None,
            })),
            Err(_) => None,
        });
    }
    Some(out)
}

/// Relies on domain's `MessageBuilder::start_answer`, `Header::set_ra`,
/// `Rcode::from_int`, `Class::from_int`, `AnswerBuilder::push` and `finish`.
/// On a `Vec` target appending never fails, so a query with a sole question
/// always gets an answer.
#[verifier::external_body]
fn build_answer(query: &Vec<u8>, rcode: u8, ra: bool, class: u16, ttl: u32, ip: u32) -> (r: Option<Vec<u8>>)
    ensures
        r is None ==> answer_of(query@, rcode, ra, class, ttl, ip) is None,
        r matches Some(a) ==> answer_of(query@, rcode, ra, class, ttl, ip) == Some(a@),
        sole_question_of(query@) is Some ==> r is Some,
{
    let qmsg = Message::from_octets(query.as_slice()).ok()?;
    let question = qmsg.sole_question().ok()?;
    let mut builder = MessageBuilder::new_vec().start_answer(&qmsg, Rcode::from_int(rcode)).ok()?;
    builder.header_mut().set_ra(ra);
    builder.push((question.qname(), Class::from_int(class), ttl, A::new(ip.into()))).ok()?;
    Some(builder.finish())
}

/// The address of the first record of type A whose data parses.
pub open spec fn first_a_in(records: Seq<Option<(u16, Option<u32>)>>) -> Option<u32>
    decreases records.len(),
{
    if records.len() == 0 {
        None
    } else {
        match records[0] {
            Some((t, Some(a))) => if t == QTYPE_A { Some(a) } else { first_a_in(records.drop_first()) },
            _ => first_a_in(records.drop_first()),
        }
    }
}

/// The address of the first A record of an answer section, skipping records
/// of other types and records that do not parse.
pub fn first_a(records: &Vec<Option<(u16, Option<u32>)>>) -> (r: Option<u32>)
    ensures
        r == first_a_in(records@),
{
    let mut i: usize = 0;
    proof {
        assert(records@.subrange(0, records@.len() as int) =~= records@);
    }
    while i < records.len()
        invariant
            i <= records@.len(),
            first_a_in(records@) == first_a_in(records@.subrange(i as int, records@.len() as int)),
        decreases records@.len() - i,
    {
        proof {
            let rest = records@.subrange(i as int, records@.len() as int);
            assert(rest.drop_first() =~= records@.subrange(i + 1, records@.len() as int));
            assert(rest[0] == records@[i as int]);
        }
        match records[i] {
            Some((t, Some(a))) => {
                if t == QTYPE_A {
                    return Some(a);
                }
            },
            _ => {},
        }
        i = i + 1;
    }
    None
}

/// The record type and name of the sole question of `msg`, if it has one.
pub fn question(msg: &Vec<u8>) -> (r: Option<(u16, Vec<u8>)>)
    ensures
        r is None ==> sole_question_of(msg@) is None,
        r matches Some((t, n)) ==> sole_question_of(msg@) == Some((t, n@)),
{
    parse_sole_question(msg)
}

/// What to do with a query datagram before any upstream exchange.
pub enum QueryAction {
    /// Send nothing.
    Drop,
    /// Send the query as it is to the upstream resolver.
    Forward,
    /// Send this answer to the client.
    Reply(Vec<u8>),
}

/// What to do once the upstream response to a forwarded query is in.
pub enum UpstreamAction {
    /// Send nothing.
    Drop,
    /// Send these bytes to the client.
    Relay(Vec<u8>),
    /// Record `name` in the learned cache and send `answer` to the client.
    Learn { name: Vec<u8>, answer: Vec<u8> },
}

/// The per-query decisions of the DNS responder.
pub struct Responder {
    pub ttl: u32,
    pub cidrs: CidrSet,
    pub oracle: Oracle,
}

impl Responder {
    pub open spec fn wf(&self) -> bool {
        self.cidrs.wf()
    }

    /// The query is sent upstream: it has one question, and that question
    /// is not an A question the oracle takes.
    pub open spec fn forwards(&self, query: Seq<u8>, cached: bool) -> bool {
        match sole_question_of(query) {
            None => false,
            Some((t, name)) => t != QTYPE_A || !self.oracle.accepts_spec(name, cached),
        }
    }

    /// The local answer to `query` for the address `ip`: NoError, RA set,
    /// class IN and the configured TTL.
    pub open spec fn local_answer(&self, query: Seq<u8>, ip: u32) -> Option<Seq<u8>> {
        answer_of(query, RCODE_NO_ERROR, true, CLASS_IN, self.ttl, ip)
    }

    /// The name to learn from an upstream response: the question's name, where
    /// the learned oracle is in use, the question asks for A, and the
    /// response's first A address lies in the CIDR set.
    pub open spec fn learned_name(&self, query: Seq<u8>, upstream: Seq<u8>) -> Option<Seq<u8>> {
        match sole_question_of(query) {
            Some((t, name)) => {
                if t == QTYPE_A && self.oracle is Learned {
                    match answer_records_of(upstream) {
                        Some(records) => match first_a_in(records) {
                            Some(ip) => if self.cidrs.contains_spec(ip) { Some(name) } else { None },
                            None => None,
                        },
                        None => None,
                    }
                } else {
                    None
                }
            },
            None => None,
        }
    }

    /// The bytes sent to the client once the upstream response is in.
    pub open spec fn upstream_reply(&self, query: Seq<u8>, upstream: Seq<u8>, ip: u32) -> Option<Seq<u8>> {
        match sole_question_of(query) {
            None => None,
            Some((t, name)) => {
                if t != QTYPE_A || self.oracle is Static {
                    Some(upstream)
                } else if answer_records_of(upstream) is None {
                    None
                } else if self.learned_name(query, upstream) is Some {
                    self.local_answer(query, ip)
                } else {
                    Some(upstream)
                }
            },
        }
    }

    /// The learned oracle is in use and `query` has one question, of type A.
    pub open spec fn looks_up_cache(&self, query: Seq<u8>) -> bool {
        match sole_question_of(query) {
            Some((t, _)) => self.oracle is Learned && t == QTYPE_A,
            None => false,
        }
    }

    /// The name to look up in the learned cache before deciding on `query`:
    /// its question's name, where the learned oracle is in use and the
    /// question asks for A.
    pub fn cache_key(&self, query: &Vec<u8>) -> (r: Option<Vec<u8>>)
        ensures
            r is Some <==> self.looks_up_cache(query@),
            r matches Some(n) ==> sole_question_of(query@) == Some((QTYPE_A, n@)),
    {
        if !self.oracle.is_learned() {
            return None;
        }
        match question(query) {
            Some((t, name)) => if t == QTYPE_A { Some(name) } else { None },
            None => None,
        }
    }

    /// Decision on a query datagram. `cached` is whether the learned cache
    /// holds the question's name; `best` is the current fast-IP cell.
    pub fn on_query(&self, query: &Vec<u8>, cached: bool, best: FastIpCell) -> (r: QueryAction)
        ensures
            r is Forward <==> self.forwards(query@, cached),
            r is Drop <==> sole_question_of(query@) is None,
            r matches QueryAction::Reply(a) ==> self.local_answer(query@, best.ip) == Some(a@),
    {
        match question(query) {
            None => QueryAction::Drop,
            Some((t, name)) => {
                if t != QTYPE_A || !self.oracle.accepts(&name, cached) {
                    QueryAction::Forward
                } else {
                    match build_answer(query, RCODE_NO_ERROR, true, CLASS_IN, self.ttl, best.ip) {
                        Some(a) => QueryAction::Reply(a),
                        None => QueryAction::Drop,
                    }
                }
            },
        }
    }

    /// Decision on the upstream response to a forwarded query; `best` is the
    /// current fast-IP cell.
    pub fn on_upstream(&self, query: &Vec<u8>, upstream: Vec<u8>, best: FastIpCell) -> (r: UpstreamAction)
        requires
            self.wf(),
        ensures
            r is Drop <==> self.upstream_reply(query@, upstream@, best.ip) is None,
            r matches UpstreamAction::Relay(b) ==> self.upstream_reply(query@, upstream@, best.ip) == Some(b@)
                && b@ == upstream@ && self.learned_name(query@, upstream@) is None,
            r matches UpstreamAction::Learn { name, answer } ==>
                self.upstream_reply(query@, upstream@, best.ip) == Some(answer@)
                && self.learned_name(query@, upstream@) == Some(name@),
    {
        let (t, name) = match question(query) {
            None => return UpstreamAction::Drop,
            Some(q) => q,
        };
        if t != QTYPE_A || !self.oracle.is_learned() {
            return UpstreamAction::Relay(upstream);
        }
        let records = match answer_records(&upstream) {
            None => return UpstreamAction::Drop,
            Some(v) => v,
        };
        let ip = match first_a(&records) {
            Some(a) => a,
            None => return UpstreamAction::Relay(upstream),
        };
        if self.cidrs.contains(ip) {
            match build_answer(query, RCODE_NO_ERROR, true, CLASS_IN, self.ttl, best.ip) {
                Some(answer) => UpstreamAction::Learn { name, answer },
                None => UpstreamAction::Drop,
            }
        } else {
            UpstreamAction::Relay(upstream)
        }
    }
}

/// A query that is not an A query gets the upstream bytes back unchanged.
pub proof fn lemma_non_a_relayed_verbatim(r: Responder, query: Seq<u8>, upstream: Seq<u8>, ip: u32)
    requires
        sole_question_of(query) matches Some((t, _)) && t != QTYPE_A,
    ensures
        r.upstream_reply(query, upstream, ip) == Some(upstream),
        r.learned_name(query, upstream) is None,
{
}

/// An A query that was forwarded, and whose upstream response names a first
/// A address outside the CIDR set, gets the upstream bytes back unchanged.
pub proof fn lemma_outside_answer_relayed_verbatim(r: Responder, query: Seq<u8>, upstream: Seq<u8>, ip: u32, a: u32)
    requires
        sole_question_of(query) matches Some((t, _)) && t == QTYPE_A,
        answer_records_of(upstream) matches Some(records) && first_a_in(records) == Some(a),
        !r.cidrs.contains_spec(a),
    ensures
        r.upstream_reply(query, upstream, ip) == Some(upstream),
        r.learned_name(query, upstream) is None,
{
}

/// An A query that the oracle takes is never sent upstream (`on_query` then
/// replies with the local answer for the cell's address).
pub proof fn lemma_accepted_query_answered_locally(r: Responder, query: Seq<u8>, cached: bool)
    requires
        sole_question_of(query) matches Some((t, name)) && t == QTYPE_A && r.oracle.accepts_spec(name, cached),
    ensures
        !r.forwards(query, cached),
{
}

/// Two local answers built for the same query, TTL and address are the same
/// bytes: nothing else enters the answer.
pub proof fn lemma_local_answer_deterministic(r: Responder, query: Seq<u8>, ip: u32, first: Seq<u8>, second: Seq<u8>)
    requires
        r.local_answer(query, ip) == Some(first),
        r.local_answer(query, ip) == Some(second),
    ensures
        first == second,
{
}

} // verus!

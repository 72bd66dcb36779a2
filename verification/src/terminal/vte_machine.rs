//! The escape-sequence state machine of the `vte` crate, together with the
//! bytes it has been fed. Only the two trusted functions below create or
//! advance it, so what it reports is always the actions of a fresh machine
//! fed those bytes, in order.
use vstd::prelude::*;
use crate::terminal::parser::{event_views, EventView, ParserEvent};

verus! {

#[verifier::external_type_specification]
#[verifier::external_body]
pub struct ExVteParser<const N: usize>(vte::Parser<N>);

#[verifier::external_type_specification]
#[verifier::external_body]
pub struct ExVteParams(vte::Params);

/// Records, in order, the actions the VTE state machine reports.
struct EventCollector {
    events: Vec<ParserEvent>,
}

impl EventCollector {
    /// The actions recorded so far, in order.
    pub closed spec fn recorded(&self) -> Seq<ParserEvent> {
        self.events@
    }
}

impl vte::Perform for EventCollector {
    fn print(&mut self, c: char)
        ensures
            final(self).recorded() == old(self).recorded().push(ParserEvent::Print(c)),
    {
        self.events.push(ParserEvent::Print(c));
    }

    fn execute(&mut self, byte: u8)
        ensures
            final(self).recorded() == old(self).recorded().push(ParserEvent::Execute(byte)),
    {
        self.events.push(ParserEvent::Execute(byte));
    }

    fn hook(&mut self, _params: &vte::Params, _intermediates: &[u8], _ignore: bool, _action: char)
        ensures
            final(self).recorded() == old(self).recorded().push(ParserEvent::Dcs),
    {
        self.events.push(ParserEvent::Dcs);
    }

    fn put(&mut self, _byte: u8)
        ensures
            final(self).recorded() == old(self).recorded().push(ParserEvent::Dcs),
    {
        self.events.push(ParserEvent::Dcs);
    }

    fn unhook(&mut self)
        ensures
            final(self).recorded() == old(self).recorded().push(ParserEvent::Dcs),
    {
        self.events.push(ParserEvent::Dcs);
    }

    fn osc_dispatch(&mut self, params: &[&[u8]], _bell_terminated: bool)
        ensures
            final(self).recorded().len() == old(self).recorded().len() + 1,
            final(self).recorded().drop_last() == old(self).recorded(),
            final(self).recorded().last()@ == EventView::Osc(params@.map_values(|p: &[u8]| p@)),
    {
        let mut groups: Vec<Vec<u8>> = Vec::new();
        let mut i: usize = 0;
        while i < params.len()
            invariant
                i <= params@.len(),
                groups@.len() == i,
                forall|k: int| 0 <= k < i ==> #[trigger] groups@[k]@ == params@[k]@,
            decreases params.len() - i,
        {
            let p: &[u8] = params[i];
            let mut g: Vec<u8> = Vec::new();
            let mut j: usize = 0;
            while j < p.len()
                invariant
                    j <= p@.len(),
                    g@ == p@.take(j as int),
                decreases p.len() - j,
            {
                g.push(p[j]);
                proof {
                    assert(p@.take(j as int + 1) =~= p@.take(j as int).push(p@[j as int]));
                }
                j = j + 1;
            }
            proof {
                assert(p@.take(p@.len() as int) =~= p@);
            }
            groups.push(g);
            i = i + 1;
        }
        proof {
            assert(groups@.map_values(|q: Vec<u8>| q@) =~= params@.map_values(|p: &[u8]| p@));
        }
        self.events.push(ParserEvent::Osc(groups));
        proof {
            assert(self.events@.drop_last() =~= old(self).events@);
        }
    }

    fn csi_dispatch(&mut self, params: &vte::Params, _intermediates: &[u8], _ignore: bool, action: char)
        ensures
            final(self).recorded().len() == old(self).recorded().len() + 1,
            final(self).recorded().drop_last() == old(self).recorded(),
            final(self).recorded().last() is Csi,
            final(self).recorded().last()->action == action,
    {
        let groups = param_groups(params);
        self.events.push(ParserEvent::Csi { params: groups, action });
        proof {
            assert(self.events@.drop_last() =~= old(self).events@);
        }
    }

    fn esc_dispatch(&mut self, _intermediates: &[u8], _ignore: bool, byte: u8)
        ensures
            final(self).recorded() == old(self).recorded().push(ParserEvent::Esc(byte)),
    {
        self.events.push(ParserEvent::Esc(byte));
    }
}

/// The parameter groups of a control sequence, in order.
///
/// Trusted: copies out what `vte::Params::iter` yields. No property of the
/// groups is stated: they are whatever the state machine collected.
#[verifier::external_body]
fn param_groups(params: &vte::Params) -> Vec<Vec<u16>> {
    params.iter().map(|p| p.to_vec()).collect()
}

/// The actions a fresh `vte` state machine reports, in order, when fed
/// `bytes` (as the event collector above records them). The machine keeps no
/// state but what those bytes put there, so this depends on them alone.
pub uninterp spec fn vte_actions(bytes: Seq<u8>) -> Seq<EventView>;

/// A `vte` state machine and the bytes fed to it since it was made.
pub struct VteMachine {
    parser: vte::Parser,
    fed: Ghost<Seq<u8>>,
}

impl VteMachine {
    /// The bytes fed to the machine since it was made.
    pub closed spec fn fed(&self) -> Seq<u8> {
        self.fed@
    }
}

/// A fresh machine.
///
/// Trusted: calls `vte::Parser::new`; no byte has been fed.
#[verifier::external_body]
pub(crate) fn new_vte_machine() -> (m: VteMachine)
    ensures
        m.fed() == Seq::<u8>::empty(),
{
    VteMachine { parser: vte::Parser::new(), fed: Ghost(Seq::empty()) }
}

/// Feeds one byte to the machine and returns the actions it reports.
///
/// Trusted: calls `vte::Parser::advance` with a collector whose callbacks
/// (verified code above) record each action. The machine is deterministic and
/// only appends to what it has reported, so the actions a fresh machine
/// reports for the bytes fed so far grow by exactly the ones returned.
#[verifier::external_body]
pub(crate) fn vte_advance(m: &mut VteMachine, byte: u8) -> (events: Vec<ParserEvent>)
    ensures
        final(m).fed() == old(m).fed().push(byte),
        vte_actions(old(m).fed()).len() <= vte_actions(final(m).fed()).len(),
        vte_actions(final(m).fed()).take(vte_actions(old(m).fed()).len() as int) == vte_actions(
            old(m).fed(),
        ),
        event_views(events@) == vte_actions(final(m).fed()).skip(
            vte_actions(old(m).fed()).len() as int,
        ),
{
    let mut collector = EventCollector { events: Vec::new() };
    m.parser.advance(&mut collector, byte);
    m.fed = Ghost(m.fed@.push(byte));
    collector.events
}

} // verus!

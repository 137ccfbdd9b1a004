//! Requires certain plugin channels to be present on the server.
//!
//! The server advertises its channels once the session is up. The guard looks
//! at the first advertisement only: where a required channel is missing from
//! it, the session is to be shut down.

use vstd::prelude::*;
use vstd::slice::slice_subrange;
use vstd::string::StringExecFns;
use vstd::utf8::{decode_utf8, encode_utf8, encode_utf8_decode_utf8, valid_utf8};
use crate::event::Event;
use crate::plugin_message::{channel_of, receive_dispatch, Channel};
use crate::resource_location::same_identifier;
use crate::wire::str_from_utf8;

verus! {

/// The number of bytes of `s` before its first zero byte; the length of `s`
/// where it holds none.
pub open spec fn first_nul(s: Seq<u8>) -> nat
    decreases s.len(),
{
    if s.len() == 0 || s[0] == 0 {
        0
    } else {
        1 + first_nul(s.skip(1))
    }
}

/// The token at the front of an advertisement, as the list of identifiers
/// that it contributes: itself, or nothing where it is empty or not UTF-8.
pub open spec fn token_identifiers(token: Seq<u8>) -> Seq<Seq<char>> {
    if token.len() > 0 && valid_utf8(token) {
        seq![decode_utf8(token)]
    } else {
        seq![]
    }
}

/// The identifiers that an advertisement names, in order: its bytes are cut
/// at every zero byte, and each piece that is not empty and is UTF-8 is one
/// identifier.
pub open spec fn advertised(data: Seq<u8>) -> Seq<Seq<char>>
    decreases data.len(),
{
    let i = first_nul(data);
    if i >= data.len() {
        token_identifiers(data)
    } else {
        token_identifiers(data.take(i as int)) + advertised(data.skip(i as int + 1))
    }
}

/// `first_nul` is the place of the first zero byte: no byte before it is
/// zero, and it is the end of `s` or a zero byte.
pub proof fn lemma_first_nul(s: Seq<u8>, i: int)
    requires
        0 <= i <= s.len(),
        forall|k: int| 0 <= k < i ==> s[k] != 0,
        i == s.len() || s[i] == 0,
    ensures
        first_nul(s) == i,
    decreases i,
{
    if i > 0 {
        assert(s[0] != 0);
        assert forall|k: int| 0 <= k < i - 1 implies s.skip(1)[k] != 0 by {
            assert(s.skip(1)[k] == s[k + 1]);
        }
        lemma_first_nul(s.skip(1), i - 1);
    }
}

/// Parses a channel advertisement.
pub fn parse_advertisement(data: &[u8]) -> (channels: Vec<String>)
    ensures
        channels.deep_view() == advertised(data@),
{
    let mut channels: Vec<String> = Vec::new();
    let end: usize = data.len();
    let mut start: usize = 0;
    proof {
        assert(data@.skip(0) =~= data@);
        assert(channels.deep_view() =~= Seq::<Seq<char>>::empty());
        assert(advertised(data@) =~= channels.deep_view() + advertised(data@.skip(0)));
    }
    loop
        invariant
            end == data@.len(),
            start <= end,
            advertised(data@) == channels.deep_view() + advertised(data@.skip(start as int)),
        decreases end - start,
    {
        let ghost rest = data@.skip(start as int);
        let mut stop: usize = start;
        while stop < end && data[stop] != 0
            invariant
                end == data@.len(),
                start <= stop <= end,
                forall|k: int| start <= k < stop ==> data@[k] != 0,
            decreases end - stop,
        {
            stop += 1;
        }
        proof {
            assert forall|k: int| 0 <= k < stop - start implies rest[k] != 0 by {
                assert(rest[k] == data@[start + k]);
            }
            lemma_first_nul(rest, stop - start);
        }
        let token = slice_subrange(data, start, stop);
        assert(token@ =~= rest.take(stop - start));
        let ghost before = channels.deep_view();
        if stop > start {
            match str_from_utf8(token) {
                Some(text) => {
                    proof {
                        encode_utf8_decode_utf8(text@);
                    }
                    channels.push(String::from_str(text));
                    assert(channels.deep_view() =~= before + token_identifiers(token@));
                },
                None => {},
            }
        }
        assert(channels.deep_view() =~= before + token_identifiers(token@));
        if stop >= end {
            proof {
                assert(rest.take(stop - start) =~= rest);
                assert(advertised(rest) == token_identifiers(rest));
                assert(advertised(data@) =~= channels.deep_view());
            }
            return channels;
        }
        proof {
            assert(rest.skip(stop - start + 1) =~= data@.skip(stop + 1));
            assert(advertised(rest) == token_identifiers(token@) + advertised(
                data@.skip(stop + 1),
            ));
            assert(advertised(data@) =~= channels.deep_view() + advertised(data@.skip(stop + 1)));
        }
        start = stop + 1;
    }
}

/// The required channels that an advertisement does not name, in the order
/// in which they were required.
pub open spec fn missing_channels(required: Seq<Seq<char>>, advertised: Seq<Seq<char>>) -> Seq<
    Seq<char>,
> {
    required.filter(|r: Seq<char>| !advertised.contains(r))
}

/// What the guard decided about an event.
#[derive(Clone, Debug)]
pub enum Verdict {
    /// The event was no first advertisement: nothing to do.
    Ignored,
    /// Every required channel is present: nothing to do.
    Passed,
    /// These required channels are missing: the session is to be shut down.
    MissingRequiredChannels(Vec<String>),
}

/// What the guard decided about an event, as mathematical values.
pub enum VerdictView {
    Ignored,
    Passed,
    MissingRequiredChannels(Seq<Seq<char>>),
}

impl View for Verdict {
    type V = VerdictView;

    open spec fn view(&self) -> VerdictView {
        match *self {
            Verdict::Ignored => VerdictView::Ignored,
            Verdict::Passed => VerdictView::Passed,
            Verdict::MissingRequiredChannels(missing) => {
                VerdictView::MissingRequiredChannels(missing.deep_view())
            },
        }
    }
}

/// The verdict on an advertisement: passed where nothing required is
/// missing, and otherwise the missing channels.
pub open spec fn judged(required: Seq<Seq<char>>, data: Seq<u8>) -> VerdictView {
    let missing = missing_channels(required, advertised(data));
    if missing.len() == 0 {
        VerdictView::Passed
    } else {
        VerdictView::MissingRequiredChannels(missing)
    }
}

/// The guard: the channels that the server must offer, and whether the
/// server's advertisement has been looked at.
#[derive(Debug)]
pub struct Plugin {
    required_plugins: Vec<&'static str>,
    checked: bool,
}

/// Whether `list` holds the identifier `id`.
fn holds_identifier(list: &Vec<&'static str>, id: &str) -> (r: bool)
    ensures
        r == list.deep_view().contains(id@),
{
    let mut i: usize = 0;
    while i < list.len()
        invariant
            i <= list@.len(),
            forall|k: int| 0 <= k < i ==> list.deep_view()[k] != id@,
        decreases list@.len() - i,
    {
        if same_identifier(list[i], id) {
            assert(list.deep_view()[i as int] == id@);
            return true;
        }
        i += 1;
    }
    false
}

/// Whether an advertisement's list of channels names `id`.
fn names_identifier(channels: &Vec<String>, id: &str) -> (r: bool)
    ensures
        r == channels.deep_view().contains(id@),
{
    let mut i: usize = 0;
    while i < channels.len()
        invariant
            i <= channels@.len(),
            forall|k: int| 0 <= k < i ==> channels.deep_view()[k] != id@,
        decreases channels@.len() - i,
    {
        if same_identifier(channels[i].as_str(), id) {
            assert(channels.deep_view()[i as int] == id@);
            return true;
        }
        i += 1;
    }
    false
}

impl Plugin {
    #[verifier::type_invariant]
    spec fn distinct(self) -> bool {
        self.required_plugins.deep_view().no_duplicates()
    }

    /// The required channels, each once, in the order in which they were
    /// first named.
    pub closed spec fn required(self) -> Seq<Seq<char>> {
        self.required_plugins.deep_view()
    }

    /// Whether the server's advertisement has been looked at.
    pub closed spec fn checked(self) -> bool {
        self.checked
    }

    /// A guard that requires the given channels: each of them once, in the
    /// order in which they are first named.
    pub fn require_plugins(plugins: Vec<&'static str>) -> (plugin: Plugin)
        ensures
            plugin.required() == first_occurrences(plugins.deep_view()),
            plugin.required().to_set() == plugins.deep_view().to_set(),
            plugin.required().no_duplicates(),
            !plugin.checked(),
    {
        let mut required: Vec<&'static str> = Vec::new();
        let mut i: usize = 0;
        proof {
            assert(plugins.deep_view().take(0) =~= Seq::<Seq<char>>::empty());
            assert(required.deep_view() =~= Seq::<Seq<char>>::empty());
        }
        while i < plugins.len()
            invariant
                i <= plugins@.len(),
                required.deep_view() == first_occurrences(plugins.deep_view().take(i as int)),
            decreases plugins@.len() - i,
        {
            let ghost before = required.deep_view();
            let ghost seen = plugins.deep_view().take(i as int);
            let id: &'static str = plugins[i];
            proof {
                assert(plugins.deep_view()[i as int] == id@);
                assert(plugins.deep_view().take(i + 1).drop_last() =~= seen);
                assert(plugins.deep_view().take(i + 1).last() == id@);
            }
            if !holds_identifier(&required, id) {
                required.push(id);
                assert(required.deep_view() =~= before.push(id@));
            }
            i += 1;
        }
        proof {
            assert(plugins.deep_view().take(i as int) =~= plugins.deep_view());
            lemma_first_occurrences(plugins.deep_view());
        }
        Plugin { required_plugins: required, checked: false }
    }

    /// The required channels, each once.
    pub fn required_plugins(&self) -> (required: &Vec<&'static str>)
        ensures
            required.deep_view() == self.required(),
            required.deep_view().no_duplicates(),
    {
        proof {
            use_type_invariant(self);
        }
        &self.required_plugins
    }

    /// Reacts to one event of the host session: a plugin message is handed
    /// to [`Plugin::handle_custom_payload_packet`], anything else is ignored.
    pub fn handle(&mut self, event: &Event) -> (outcome: Verdict)
        ensures
            final(self).required() == old(self).required(),
            match *event {
                Event::CustomPayload { identifier, data } => {
                    &&& outcome@ == verdict_on(
                        old(self).required(),
                        old(self).checked(),
                        identifier@,
                        data@,
                    )
                    &&& final(self).checked() == (old(self).checked() || channel_of(identifier@)
                        == Some(Channel::Register))
                },
                _ => outcome@ == VerdictView::Ignored && final(self).checked() == old(
                    self,
                ).checked(),
            },
    {
        match event {
            Event::CustomPayload { identifier, data } => self.handle_custom_payload_packet(
                identifier.as_str(),
                data.as_slice(),
            ),
            _ => Verdict::Ignored,
        }
    }

    /// Reacts to one plugin message. The first channel advertisement is
    /// judged against the required channels; later advertisements and all
    /// other messages are ignored.
    pub fn handle_custom_payload_packet(&mut self, identifier: &str, data: &[u8]) -> (outcome:
        Verdict)
        ensures
            final(self).required() == old(self).required(),
            final(self).checked() == (old(self).checked() || channel_of(identifier@) == Some(
                Channel::Register,
            )),
            outcome@ == verdict_on(old(self).required(), old(self).checked(), identifier@, data@),
    {
        proof {
            use_type_invariant(&*self);
        }
        match receive_dispatch(identifier, data) {
            Some((Channel::Register, payload)) => {
                if self.checked {
                    return Verdict::Ignored;
                }
                self.checked = true;
                let channels = parse_advertisement(payload);
                let missing = self.missing_from(&channels);
                if missing.len() == 0 {
                    Verdict::Passed
                } else {
                    Verdict::MissingRequiredChannels(missing)
                }
            },
            _ => Verdict::Ignored,
        }
    }

    /// The required channels that `channels` does not name.
    pub fn missing_from(&self, channels: &Vec<String>) -> (missing: Vec<String>)
        ensures
            missing.deep_view() == missing_channels(self.required(), channels.deep_view()),
    {
        let mut missing: Vec<String> = Vec::new();
        let ghost required = self.required();
        let ghost offered = channels.deep_view();
        let mut i: usize = 0;
        proof {
            reveal(Seq::filter);
            assert(required.take(0) =~= Seq::<Seq<char>>::empty());
            assert(missing.deep_view() =~= missing_channels(required.take(0), offered));
        }
        while i < self.required_plugins.len()
            invariant
                i <= self.required_plugins@.len(),
                required == self.required_plugins.deep_view(),
                offered == channels.deep_view(),
                missing.deep_view() == missing_channels(required.take(i as int), offered),
            decreases self.required_plugins@.len() - i,
        {
            let id: &'static str = self.required_plugins[i];
            let ghost before = missing.deep_view();
            proof {
                assert(required[i as int] == id@);
                assert(required.take(i + 1) =~= required.take(i as int).push(id@));
                lemma_missing_push(required.take(i as int), id@, offered);
            }
            if !names_identifier(channels, id) {
                missing.push(String::from_str(id));
                assert(missing.deep_view() =~= before.push(id@));
            }
            i += 1;
        }
        assert(required.take(i as int) =~= required);
        missing
    }
}

impl Clone for Plugin {
    /// A guard with the same requirements, at the same point.
    fn clone(&self) -> (copy: Plugin)
        ensures
            copy.required() == self.required(),
            copy.checked() == self.checked(),
    {
        proof {
            use_type_invariant(self);
        }
        let mut required: Vec<&'static str> = Vec::new();
        let mut i: usize = 0;
        while i < self.required_plugins.len()
            invariant
                i <= self.required_plugins@.len(),
                required.deep_view() == self.required_plugins.deep_view().take(i as int),
            decreases self.required_plugins@.len() - i,
        {
            let ghost before = required.deep_view();
            let id: &'static str = self.required_plugins[i];
            required.push(id);
            proof {
                assert(self.required_plugins.deep_view()[i as int] == id@);
                assert(required.deep_view() =~= before.push(id@));
                assert(self.required_plugins.deep_view().take(i + 1)
                    =~= self.required_plugins.deep_view().take(i as int).push(id@));
            }
            i += 1;
        }
        assert(self.required_plugins.deep_view().take(i as int)
            =~= self.required_plugins.deep_view());
        Plugin { required_plugins: required, checked: self.checked }
    }
}

impl Default for Plugin {
    /// A guard that requires nothing.
    fn default() -> (plugin: Plugin)
        ensures
            plugin.required().len() == 0,
            !plugin.checked(),
    {
        let required: Vec<&'static str> = Vec::new();
        assert(required.deep_view() =~= Seq::<Seq<char>>::empty());
        Plugin { required_plugins: required, checked: false }
    }
}

/// What the guard makes of a plugin message: only the first advertisement is
/// judged, and everything else is ignored.
pub open spec fn verdict_on(
    required: Seq<Seq<char>>,
    checked: bool,
    identifier: Seq<char>,
    data: Seq<u8>,
) -> VerdictView {
    if !checked && channel_of(identifier) == Some(Channel::Register) {
        judged(required, data)
    } else {
        VerdictView::Ignored
    }
}

/// Requiring one channel more adds it to the missing ones exactly when the
/// advertisement does not name it.
pub proof fn lemma_missing_push(required: Seq<Seq<char>>, id: Seq<char>, advertised: Seq<Seq<char>>)
    ensures
        missing_channels(required.push(id), advertised) == if advertised.contains(id) {
            missing_channels(required, advertised)
        } else {
            missing_channels(required, advertised).push(id)
        },
{
    reveal(Seq::filter);
    assert(required.push(id).drop_last() =~= required);
}

/// A channel is missing exactly when it is required and the advertisement
/// does not name it.
pub proof fn lemma_missing_members(
    required: Seq<Seq<char>>,
    advertised: Seq<Seq<char>>,
    x: Seq<char>,
)
    ensures
        missing_channels(required, advertised).contains(x) == (required.contains(x)
            && !advertised.contains(x)),
    decreases required.len(),
{
    if required.len() == 0 {
        reveal(Seq::filter);
        assert(missing_channels(required, advertised) =~= Seq::<Seq<char>>::empty());
    } else {
        let front = required.drop_last();
        let last = required.last();
        assert(required =~= front.push(last));
        lemma_missing_members(front, advertised, x);
        lemma_missing_push(front, last, advertised);
        lemma_push_contains(front, last, x);
        lemma_push_contains(missing_channels(front, advertised), last, x);
    }
}

/// The verdict on an advertisement is "passed" exactly when every required
/// channel is among the advertised ones; extra channels do no harm.
/// Otherwise it names the required channels that are not advertised, and
/// only those.
pub proof fn lemma_passed_iff_subset(required: Seq<Seq<char>>, data: Seq<u8>)
    ensures
        (judged(required, data) is Passed) == required.to_set().subset_of(
            advertised(data).to_set(),
        ),
        judged(required, data) matches VerdictView::MissingRequiredChannels(missing) ==> {
            &&& missing.len() > 0
            &&& missing.to_set() == required.to_set().difference(advertised(data).to_set())
        },
        !(judged(required, data) is Ignored),
{
    let offered = advertised(data);
    let missing = missing_channels(required, offered);
    assert forall|x: Seq<char>|
        missing.to_set().contains(x) == required.to_set().difference(offered.to_set()).contains(
            x,
        ) by {
        lemma_missing_members(required, offered, x);
    }
    assert(missing.to_set() =~= required.to_set().difference(offered.to_set()));
    if missing.len() == 0 {
        assert forall|x: Seq<char>| required.to_set().contains(x) implies offered.to_set().contains(
            x,
        ) by {
            lemma_missing_members(required, offered, x);
            if missing.contains(x) {
                let k = choose|k: int| 0 <= k < missing.len() && missing[k] == x;
            }
        }
    } else {
        let x = missing[0];
        assert(missing.contains(x));
        lemma_missing_members(required, offered, x);
        assert(required.to_set().contains(x) && !offered.to_set().contains(x));
    }
}

/// No advertised identifier is empty: empty tokens are dropped.
pub proof fn lemma_advertised_nonempty(data: Seq<u8>, i: int)
    requires
        0 <= i < advertised(data).len(),
    ensures
        advertised(data)[i].len() > 0,
    decreases data.len(),
{
    let n = first_nul(data);
    lemma_first_nul_bound(data);
    let token = if n >= data.len() {
        data
    } else {
        data.take(n as int)
    };
    let here = token_identifiers(token);
    if i < here.len() {
        assert(valid_utf8(token) && token.len() > 0);
        assert(decode_utf8(token).len() > 0);
    } else {
        lemma_advertised_nonempty(data.skip(n as int + 1), i - here.len());
    }
}

/// The first zero byte lies inside the sequence or at its end.
pub proof fn lemma_first_nul_bound(s: Seq<u8>)
    ensures
        first_nul(s) <= s.len(),
    decreases s.len(),
{
    if s.len() == 0 || s[0] == 0 {
    } else {
        lemma_first_nul_bound(s.skip(1));
    }
}

/// The items of a sequence, each once, in the order of their first
/// occurrences.
pub open spec fn first_occurrences<A>(s: Seq<A>) -> Seq<A>
    decreases s.len(),
{
    if s.len() == 0 {
        s
    } else {
        let front = first_occurrences(s.drop_last());
        if front.contains(s.last()) {
            front
        } else {
            front.push(s.last())
        }
    }
}

/// The first occurrences of a sequence hold nothing twice, and hold exactly
/// what the sequence holds.
pub proof fn lemma_first_occurrences<A>(s: Seq<A>)
    ensures
        first_occurrences(s).no_duplicates(),
        first_occurrences(s).to_set() == s.to_set(),
    decreases s.len(),
{
    if s.len() == 0 {
    } else {
        let front = first_occurrences(s.drop_last());
        let last = s.last();
        lemma_first_occurrences(s.drop_last());
        assert(s =~= s.drop_last().push(last));
        assert forall|x: A| first_occurrences(s).contains(x) == s.contains(x) by {
            lemma_push_contains(front, last, x);
            lemma_push_contains(s.drop_last(), last, x);
            assert(front.to_set().contains(x) == s.drop_last().to_set().contains(x));
        }
        assert(first_occurrences(s).to_set() =~= s.to_set());
    }
}

/// A sequence with one more item holds what it held before, and the item.
pub proof fn lemma_push_contains<A>(s: Seq<A>, a: A, x: A)
    ensures
        s.push(a).contains(x) == (s.contains(x) || x == a),
{
    if s.contains(x) {
        let k = choose|k: int| 0 <= k < s.len() && s[k] == x;
        assert(s.push(a)[k] == x);
    }
    if x == a {
        assert(s.push(a)[s.len() as int] == x);
    }
}

} // verus!

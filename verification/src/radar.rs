//! Name canonicalization, membership snapshots, the identify-friend-or-foe
//! classifier, and the per-tick diffing step of the poller.

use vstd::prelude::*;

verus! {

/// One character of a name in canonical form: an ASCII uppercase letter is
/// lowered and a space becomes an underscore; every other character is kept.
pub open spec fn canon_char(c: char) -> char {
    match c {
        ' ' => '_',
        'A' => 'a',
        'B' => 'b',
        'C' => 'c',
        'D' => 'd',
        'E' => 'e',
        'F' => 'f',
        'G' => 'g',
        'H' => 'h',
        'I' => 'i',
        'J' => 'j',
        'K' => 'k',
        'L' => 'l',
        'M' => 'm',
        'N' => 'n',
        'O' => 'o',
        'P' => 'p',
        'Q' => 'q',
        'R' => 'r',
        'S' => 's',
        'T' => 't',
        'U' => 'u',
        'V' => 'v',
        'W' => 'w',
        'X' => 'x',
        'Y' => 'y',
        'Z' => 'z',
        _ => c,
    }
}

/// A whole name in canonical form, character by character.
pub open spec fn canon_seq(s: Seq<char>) -> Seq<char> {
    s.map_values(|c: char| canon_char(c))
}

/// Canonicalizing one character twice is the same as doing it once.
pub proof fn lemma_canon_char_idempotent(c: char)
    ensures
        canon_char(canon_char(c)) == canon_char(c),
{
}

/// Canonicalization is idempotent: a canonical name is its own canonical form.
pub proof fn lemma_canonicalize_idempotent(s: Seq<char>)
    ensures
        canon_seq(canon_seq(s)) == canon_seq(s),
{
    assert(canon_seq(canon_seq(s)) =~= canon_seq(s)) by {
        assert forall|i: int| 0 <= i < s.len() implies canon_seq(canon_seq(s))[i]
            == canon_seq(s)[i] by {
            lemma_canon_char_idempotent(s[i]);
        }
    }
}

/// Canonicalization is insensitive to case and to spaces against
/// underscores: two spellings whose characters agree up to those
/// differences have the same canonical form.
pub proof fn lemma_canonicalize_case_space_insensitive(s: Seq<char>, t: Seq<char>)
    requires
        s.len() == t.len(),
        forall|i: int| 0 <= i < s.len() ==> canon_char(s[i]) == canon_char(t[i]),
    ensures
        canon_seq(s) == canon_seq(t),
{
    assert(canon_seq(s) =~= canon_seq(t));
}

/// Relies on String::push: appends exactly one character at the end.
#[verifier::external_body]
fn push_char(s: &mut String, c: char)
    ensures
        final(s)@ == old(s)@.push(c),
{
    s.push(c)
}

/// Canonical form of one character, computed.
fn canonicalize_char(c: char) -> (out: char)
    ensures
        out == canon_char(c),
{
    match c {
        ' ' => '_',
        'A' => 'a',
        'B' => 'b',
        'C' => 'c',
        'D' => 'd',
        'E' => 'e',
        'F' => 'f',
        'G' => 'g',
        'H' => 'h',
        'I' => 'i',
        'J' => 'j',
        'K' => 'k',
        'L' => 'l',
        'M' => 'm',
        'N' => 'n',
        'O' => 'o',
        'P' => 'p',
        'Q' => 'q',
        'R' => 'r',
        'S' => 's',
        'T' => 't',
        'U' => 'u',
        'V' => 'v',
        'W' => 'w',
        'X' => 'x',
        'Y' => 'y',
        'Z' => 'z',
        _ => c,
    }
}

/// Convert a nation name from My Nation to my_nation.
pub fn canonicalize(string: &str) -> (out: String)
    ensures
        out@ == canon_seq(string@),
{
    let len = string.unicode_len();
    let mut out = String::new();
    let mut i: usize = 0;
    while i < len
        invariant
            len == string@.len(),
            i <= len,
            out@ == canon_seq(string@.take(i as int)),
        decreases len - i,
    {
        let c = string.get_char(i);
        push_char(&mut out, canonicalize_char(c));
        proof {
            assert(string@.take(i + 1 as int).drop_last() =~= string@.take(i as int));
            assert(canon_seq(string@.take(i + 1 as int))
                =~= canon_seq(string@.take(i as int)).push(canon_char(string@[i as int])));
        }
        i = i + 1;
    }
    proof {
        assert(string@.take(len as int) =~= string@);
    }
    out
}

/// The names a list of owned strings holds, as sequences of characters.
pub open spec fn name_seq(v: Seq<String>) -> Seq<Seq<char>> {
    v.map_values(|s: String| s@)
}

/// The set of names a list of owned strings holds.
pub open spec fn name_set(v: Seq<String>) -> Set<Seq<char>> {
    name_seq(v).to_set()
}

/// Whether a string has the character somewhere in it.
pub fn contains_char(s: &str, c: char) -> (r: bool)
    ensures
        r == s@.contains(c),
{
    let len = s.unicode_len();
    let mut i: usize = 0;
    while i < len
        invariant
            len == s@.len(),
            i <= len,
            forall|j: int| 0 <= j < i ==> s@[j] != c,
        decreases len - i,
    {
        if s.get_char(i) == c {
            return true;
        }
        i = i + 1;
    }
    false
}

/// Whether the list holds a string spelling this name.
pub fn contains_name(v: &Vec<String>, name: &String) -> (r: bool)
    ensures
        r == name_seq(v@).contains(name@),
{
    let mut i: usize = 0;
    while i < v.len()
        invariant
            i <= v.len(),
            forall|j: int| 0 <= j < i ==> v@[j]@ != name@,
        decreases v.len() - i,
    {
        if v[i].eq(name) {
            assert(name_seq(v@)[i as int] == name@);
            return true;
        }
        i = i + 1;
    }
    assert(forall|j: int| 0 <= j < v@.len() ==> name_seq(v@)[j] == v@[j]@);
    false
}

/// The pieces a string falls into at every occurrence of the separator, in
/// order; a string without the separator is one piece, and a separator at
/// either end or doubled yields an empty piece.
pub open spec fn split_chars(t: Seq<char>, sep: char) -> Seq<Seq<char>>
    decreases t.len(),
{
    if t.len() == 0 {
        seq![Seq::<char>::empty()]
    } else if t[0] == sep {
        seq![Seq::<char>::empty()] + split_chars(t.skip(1), sep)
    } else {
        let rest = split_chars(t.skip(1), sep);
        seq![seq![t[0]] + rest[0]] + rest.skip(1)
    }
}

proof fn lemma_split_chars_nonempty(t: Seq<char>, sep: char)
    ensures
        split_chars(t, sep).len() >= 1,
    decreases t.len(),
{
    if t.len() != 0 && t[0] != sep {
        lemma_split_chars_nonempty(t.skip(1), sep);
    }
}

/// If the first separator of `t` stands at `k` (or `t` has none and `k` is its
/// length), the split is the prefix before `k` followed by the split of what
/// comes after `k`.
proof fn lemma_split_chars_chunk(t: Seq<char>, sep: char, k: int)
    requires
        0 <= k <= t.len(),
        forall|j: int| 0 <= j < k ==> t[j] != sep,
        k == t.len() || t[k] == sep,
    ensures
        k == t.len() ==> split_chars(t, sep) == seq![t],
        k < t.len() ==> split_chars(t, sep) == seq![t.take(k)] + split_chars(
            t.skip(k + 1),
            sep,
        ),
    decreases k,
{
    if k == 0 {
        if k == t.len() {
            assert(t =~= Seq::<char>::empty());
            assert(split_chars(t, sep) =~= seq![t]);
        } else {
            assert(t.take(0) =~= Seq::<char>::empty());
            assert(split_chars(t, sep) =~= seq![t.take(0)] + split_chars(t.skip(1), sep));
        }
    } else {
        let u = t.skip(1);
        lemma_split_chars_chunk(u, sep, k - 1);
        lemma_split_chars_nonempty(u, sep);
        let rest = split_chars(u, sep);
        if k == t.len() {
            assert(rest == seq![u]);
            assert(seq![t[0]] + u =~= t);
            assert(split_chars(t, sep) =~= seq![t]);
        } else {
            assert(rest == seq![u.take(k - 1)] + split_chars(u.skip(k), sep));
            assert(seq![t[0]] + u.take(k - 1) =~= t.take(k));
            assert(u.skip(k) =~= t.skip(k + 1));
            assert(rest[0] == u.take(k - 1));
            assert(rest.skip(1) =~= split_chars(t.skip(k + 1), sep));
            assert(split_chars(t, sep) =~= seq![t.take(k)] + split_chars(t.skip(k + 1), sep));
        }
    }
}

/// Split a string at a separator and canonicalize each piece.
fn split_and_canon(s: &str, sep: char) -> (out: Vec<String>)
    ensures
        name_seq(out@) == split_chars(s@, sep).map_values(|p: Seq<char>| canon_seq(p)),
{
    broadcast use vstd::seq_lib::group_seq_lib_default;

    let len = s.unicode_len();
    let mut out: Vec<String> = Vec::new();
    let mut start: usize = 0;
    let mut i: usize = 0;
    proof {
        let f = |p: Seq<char>| canon_seq(p);
        assert(s@.skip(0) =~= s@);
        assert(name_seq(out@) =~= Seq::<Seq<char>>::empty());
        assert(name_seq(out@) + split_chars(s@, sep).map_values(f) =~= split_chars(
            s@,
            sep,
        ).map_values(f));
    }
    while i < len
        invariant
            len == s@.len(),
            start <= i <= len,
            forall|j: int| start <= j < i ==> s@[j] != sep,
            name_seq(out@) + split_chars(s@.skip(start as int), sep).map_values(
                |p: Seq<char>| canon_seq(p),
            ) == split_chars(s@, sep).map_values(|p: Seq<char>| canon_seq(p)),
        decreases len - i,
    {
        if s.get_char(i) == sep {
            let piece = s.substring_char(start, i);
            let canon_piece = canonicalize(piece);
            proof {
                let t = s@.skip(start as int);
                let k = i - start;
                assert(forall|j: int| 0 <= j < k ==> t[j] != sep);
                assert(t[k] == sep);
                lemma_split_chars_chunk(t, sep, k);
                assert(t.take(k) =~= s@.subrange(start as int, i as int));
                assert(t.skip(k + 1) =~= s@.skip(i + 1));
                let f = |p: Seq<char>| canon_seq(p);
                assert((seq![t.take(k)] + split_chars(t.skip(k + 1), sep)).map_values(f)
                    =~= seq![f(t.take(k))] + split_chars(t.skip(k + 1), sep).map_values(f));
                assert(name_seq(out@.push(canon_piece)) =~= name_seq(out@).push(canon_piece@));
                assert(name_seq(out@.push(canon_piece)) + split_chars(s@.skip(i + 1),
                    sep,
                ).map_values(f) =~= name_seq(out@) + split_chars(s@.skip(start as int),
                    sep,
                ).map_values(f));
            }
            out.push(canon_piece);
            start = i + 1;
        }
        i = i + 1;
    }
    let piece = s.substring_char(start, len);
    let canon_piece = canonicalize(piece);
    proof {
        let t = s@.skip(start as int);
        lemma_split_chars_chunk(t, sep, len - start);
        assert(split_chars(t, sep) == seq![t]);
        assert(t =~= s@.subrange(start as int, len as int));
        let f = |p: Seq<char>| canon_seq(p);
        assert(seq![t].map_values(f) =~= seq![f(t)]);
        assert(name_seq(out@.push(canon_piece)) =~= name_seq(out@).push(canon_piece@));
        assert(name_seq(out@.push(canon_piece)) =~= name_seq(out@) + seq![f(t)]);
    }
    out.push(canon_piece);
    out
}

/// One sampled answer from the remote service: the raw membership field and
/// the revision counter that came with it.
pub struct APIResponse {
    pub nations: String,
    pub last_update: u64,
}

/// The canonical names the raw membership field holds: colon-separated when a
/// colon occurs, else comma-separated when a comma occurs; a nonempty field
/// with neither is one lone member, and an empty field holds none.
pub open spec fn spec_split_nations(s: Seq<char>) -> Seq<Seq<char>> {
    if s.contains(':') {
        split_chars(s, ':').map_values(|p: Seq<char>| canon_seq(p))
    } else if s.contains(',') {
        split_chars(s, ',').map_values(|p: Seq<char>| canon_seq(p))
    } else if s.len() == 0 {
        Seq::<Seq<char>>::empty()
    } else {
        seq![canon_seq(s)]
    }
}

impl APIResponse {
    /// Break the raw membership field into canonical names.
    pub fn split_nations(&self) -> (out: Vec<String>)
        ensures
            name_seq(out@) == spec_split_nations(self.nations@),
    {
        if contains_char(self.nations.as_str(), ':') {
            split_and_canon(self.nations.as_str(), ':')
        } else if contains_char(self.nations.as_str(), ',') {
            split_and_canon(self.nations.as_str(), ',')
        } else if self.nations.as_str().is_empty() {
            let out: Vec<String> = Vec::new();
            assert(name_seq(out@) =~= spec_split_nations(self.nations@));
            out
        } else {
            let mut out: Vec<String> = Vec::new();
            out.push(canonicalize(self.nations.as_str()));
            assert(name_seq(out@) =~= spec_split_nations(self.nations@));
            out
        }
    }
}

/// A list of names, each in canonical form.
pub open spec fn canon_names(names: Seq<Seq<char>>) -> Seq<Seq<char>> {
    names.map_values(|n: Seq<char>| canon_seq(n))
}

/// The name lists an office roster holds, one per office, in roster order.
pub open spec fn per_office_names(offices: Seq<Vec<String>>) -> Seq<Seq<Seq<char>>> {
    offices.map_values(|o: Vec<String>| name_seq(o@))
}

/// Every name an office roster holds, office by office, in roster order.
pub open spec fn office_names(offices: Seq<Vec<String>>) -> Seq<Seq<char>> {
    per_office_names(offices).flatten()
}

/// The canonical officer roster: the delegate first, then every office
/// holder, office by office, each in canonical form and in roster order.
pub fn roster_names(delegate: &str, offices: Vec<Vec<String>>) -> (out: Vec<String>)
    ensures
        name_seq(out@) == seq![canon_seq(delegate@)] + canon_names(office_names(offices@)),
{
    let mut out: Vec<String> = Vec::new();
    out.push(canonicalize(delegate));
    proof {
        assert(offices@.take(0) =~= Seq::<Vec<String>>::empty());
        assert(per_office_names(offices@.take(0)) =~= Seq::<Seq<Seq<char>>>::empty());
        assert(office_names(offices@.take(0)) =~= Seq::<Seq<char>>::empty());
        assert(name_seq(out@) =~= seq![canon_seq(delegate@)] + canon_names(
            office_names(offices@.take(0)),
        ));
    }
    let mut i: usize = 0;
    while i < offices.len()
        invariant
            i <= offices@.len(),
            name_seq(out@) == seq![canon_seq(delegate@)] + canon_names(
                office_names(offices@.take(i as int)),
            ),
        decreases offices@.len() - i,
    {
        let office = &offices[i];
        let mut j: usize = 0;
        while j < office.len()
            invariant
                j <= office@.len(),
                0 <= i < offices@.len(),
                office@ == offices@[i as int]@,
                name_seq(out@) == seq![canon_seq(delegate@)] + canon_names(
                    office_names(offices@.take(i as int)),
                ) + canon_names(name_seq(office@.take(j as int))),
            decreases office@.len() - j,
        {
            let nation = canonicalize(office[j].as_str());
            let ghost old_out = out@;
            out.push(nation);
            proof {
                assert(name_seq(out@) =~= name_seq(old_out).push(
                    canon_seq(office@[j as int]@),
                ));
                assert(name_seq(office@.take(j + 1)) =~= name_seq(office@.take(j as int)).push(
                    office@[j as int]@,
                ));
                assert(canon_names(name_seq(office@.take(j + 1))) =~= canon_names(
                    name_seq(office@.take(j as int)),
                ).push(canon_seq(office@[j as int]@)));
                assert(name_seq(out@) =~= seq![canon_seq(delegate@)] + canon_names(
                    office_names(offices@.take(i as int)),
                ) + canon_names(name_seq(office@.take(j + 1))));
            }
            j = j + 1;
        }
        proof {
            assert(office@.take(office@.len() as int) =~= office@);
            assert(offices@.take(i + 1) =~= offices@.take(i as int).push(offices@[i as int]));
            assert(per_office_names(offices@.take(i + 1)) =~= per_office_names(
                offices@.take(i as int),
            ).push(name_seq(offices@[i as int]@)));
            per_office_names(offices@.take(i as int)).lemma_flatten_push(
                name_seq(offices@[i as int]@),
            );
            assert(office_names(offices@.take(i + 1)) =~= office_names(offices@.take(i as int))
                + name_seq(offices@[i as int]@));
            assert(canon_names(
                office_names(offices@.take(i as int)) + name_seq(offices@[i as int]@),
            ) =~= canon_names(office_names(offices@.take(i as int))) + canon_names(
                name_seq(offices@[i as int]@),
            ));
            assert(name_seq(out@) =~= seq![canon_seq(delegate@)] + canon_names(
                office_names(offices@.take(i + 1)),
            ));
        }
        i = i + 1;
    }
    proof {
        assert(offices@.take(offices@.len() as int) =~= offices@);
    }
    out
}

/// Whether an unrecognized nation is targeted or spared.
#[derive(PartialEq, Eq, Structural, Clone, Copy, Debug)]
pub enum BogeyMode {
    BanUnknowns,
    SpareUnknowns,
}

/// What the classifier decides about one nation.
#[derive(PartialEq, Eq, Structural, Clone, Copy, Debug)]
pub enum Disposition {
    Friendly,
    Hostile,
    SparedUnknown,
}

/// The identify-friend-or-foe registry: explicit and implicit allow and deny
/// lists of canonical names, and the policy for names in none of them.
pub struct IFF {
    pub bogey_mode: BogeyMode,
    pub whitelist_explicit: Vec<String>,
    pub whitelist_implicit: Vec<String>,
    pub blacklist_explicit: Vec<String>,
    pub blacklist_implicit: Vec<String>,
}

impl IFF {
    /// Disposition of a canonical key, by fixed precedence: explicit allow,
    /// then explicit deny, then implicit deny, then implicit allow, then the
    /// default policy.
    pub open spec fn disposition_of(&self, key: Seq<char>) -> Disposition {
        if name_set(self.whitelist_explicit@).contains(key) {
            Disposition::Friendly
        } else if name_set(self.blacklist_explicit@).contains(key) {
            Disposition::Hostile
        } else if name_set(self.blacklist_implicit@).contains(key) {
            Disposition::Hostile
        } else if name_set(self.whitelist_implicit@).contains(key) {
            Disposition::Friendly
        } else if self.bogey_mode == BogeyMode::BanUnknowns {
            Disposition::Hostile
        } else {
            Disposition::SparedUnknown
        }
    }

    /// Classify a nation by the canonical form of its name.
    pub fn classify(&self, nation: &String) -> (d: Disposition)
        ensures
            d == self.disposition_of(canon_seq(nation@)),
    {
        let key = canonicalize(nation.as_str());
        if contains_name(&self.whitelist_explicit, &key) {
            Disposition::Friendly
        } else if contains_name(&self.blacklist_explicit, &key) {
            Disposition::Hostile
        } else if contains_name(&self.blacklist_implicit, &key) {
            Disposition::Hostile
        } else if contains_name(&self.whitelist_implicit, &key) {
            Disposition::Friendly
        } else if self.bogey_mode == BogeyMode::BanUnknowns {
            Disposition::Hostile
        } else {
            Disposition::SparedUnknown
        }
    }
}

/// A name on the explicit allow list is friendly, whatever other lists hold
/// it: explicit allowance overrides every form of denial.
pub proof fn lemma_explicit_allow_overrides(iff: &IFF, key: Seq<char>)
    requires
        name_set(iff.whitelist_explicit@).contains(key),
    ensures
        iff.disposition_of(key) == Disposition::Friendly,
{
}

/// A name on the explicit deny list and not on the explicit allow list is
/// hostile, even when the implicit allow list holds it.
pub proof fn lemma_explicit_deny_overrides_implicit_allow(iff: &IFF, key: Seq<char>)
    requires
        name_set(iff.blacklist_explicit@).contains(key),
        !name_set(iff.whitelist_explicit@).contains(key),
    ensures
        iff.disposition_of(key) == Disposition::Hostile,
{
}

/// A name on no list gets the default disposition: hostile exactly when
/// unknowns are targeted, spared otherwise.
pub proof fn lemma_default_disposition(iff: &IFF, key: Seq<char>)
    requires
        !name_set(iff.whitelist_explicit@).contains(key),
        !name_set(iff.blacklist_explicit@).contains(key),
        !name_set(iff.blacklist_implicit@).contains(key),
        !name_set(iff.whitelist_implicit@).contains(key),
    ensures
        iff.disposition_of(key) == Disposition::Hostile <==> iff.bogey_mode
            == BogeyMode::BanUnknowns,
        iff.disposition_of(key) == Disposition::SparedUnknown <==> iff.bogey_mode
            == BogeyMode::SpareUnknowns,
{
}

/// A signal from the poller to the control loop, as the contracts speak of
/// it: the name carried by an arrival or departure, or the hold-fire order.
pub enum Signal {
    Inbound(Seq<char>),
    Seperate(Seq<char>),
    HoldFire,
}

/// Signals that the radar can send to the missile system: a new nation
/// inbound, a previously tracked nation outbound, or shut down the site.
pub enum RadarCommand {
    Inbound(String),
    Seperate(String),
    HoldFire,
}

impl View for RadarCommand {
    type V = Signal;

    open spec fn view(&self) -> Signal {
        match self {
            RadarCommand::Inbound(n) => Signal::Inbound(n@),
            RadarCommand::Seperate(n) => Signal::Seperate(n@),
            RadarCommand::HoldFire => Signal::HoldFire,
        }
    }
}

/// The signals a list of commands carries, in order.
pub open spec fn signals(v: Seq<RadarCommand>) -> Seq<Signal> {
    v.map_values(|c: RadarCommand| c@)
}

/// One departure signal for every name of the previous snapshot that the
/// current one no longer holds, in the previous snapshot's order.
pub open spec fn departure_signals(prev: Seq<Seq<char>>, curr: Seq<Seq<char>>) -> Seq<Signal> {
    prev.filter(|n: Seq<char>| !curr.contains(n)).map_values(|n: Seq<char>| Signal::Seperate(n))
}

/// One arrival signal for every name new to the current snapshot whose
/// canonical form the classifier calls hostile, in the current snapshot's
/// order; friendly and spared newcomers yield no signal.
pub open spec fn arrival_signals(prev: Seq<Seq<char>>, curr: Seq<Seq<char>>, iff: &IFF) -> Seq<
    Signal,
> {
    curr.filter(
        |n: Seq<char>|
            !prev.contains(n) && iff.disposition_of(canon_seq(n)) == Disposition::Hostile,
    ).map_values(|n: Seq<char>| Signal::Inbound(n))
}

/// One sampled snapshot: the nations seen and the revision that came along.
pub struct RadarReading {
    pub nations: Vec<String>,
    pub last_update: u64,
}

/// What one poll tick emits: the events to send, and whether the tick saw a
/// refresh that stops the run.
pub struct RadarSweep {
    pub events: Vec<RadarCommand>,
    pub hold_fire: bool,
}

proof fn lemma_departures_step(prev: Seq<Seq<char>>, curr: Seq<Seq<char>>, x: Seq<char>)
    ensures
        !curr.contains(x) ==> departure_signals(prev.push(x), curr) == departure_signals(
            prev,
            curr,
        ).push(Signal::Seperate(x)),
        curr.contains(x) ==> departure_signals(prev.push(x), curr) == departure_signals(
            prev,
            curr,
        ),
{
    broadcast use Seq::lemma_filter_push, Seq::lemma_push_map_commute;

}

proof fn lemma_arrivals_step(prev: Seq<Seq<char>>, curr: Seq<Seq<char>>, x: Seq<char>, iff: &IFF)
    ensures
        (!prev.contains(x) && iff.disposition_of(canon_seq(x)) == Disposition::Hostile)
            ==> arrival_signals(prev, curr.push(x), iff) == arrival_signals(
            prev,
            curr,
            iff,
        ).push(Signal::Inbound(x)),
        !(!prev.contains(x) && iff.disposition_of(canon_seq(x)) == Disposition::Hostile)
            ==> arrival_signals(prev, curr.push(x), iff) == arrival_signals(prev, curr, iff),
{
    broadcast use Seq::lemma_filter_push, Seq::lemma_push_map_commute;

}

/// One tick of the poller, on state it does not own: diff the previous
/// snapshot against the current one into departure and arrival events, unless
/// a watched refresh preempts the diff with a lone hold-fire order.
pub fn radar_tick(
    prev_nations: &Vec<String>,
    prev_update: u64,
    curr: &RadarReading,
    stop_on_update: bool,
    iff: &IFF,
) -> (sweep: RadarSweep)
    ensures
        sweep.hold_fire == (stop_on_update && curr.last_update > prev_update),
        sweep.hold_fire ==> signals(sweep.events@) == seq![Signal::HoldFire],
        !sweep.hold_fire ==> signals(sweep.events@) == departure_signals(
            name_seq(prev_nations@),
            name_seq(curr.nations@),
        ) + arrival_signals(name_seq(prev_nations@), name_seq(curr.nations@), iff),
{
    broadcast use Seq::lemma_filter_push, Seq::lemma_push_map_commute;

    if stop_on_update && curr.last_update > prev_update {
        let mut events: Vec<RadarCommand> = Vec::new();
        events.push(RadarCommand::HoldFire);
        proof {
            assert(signals(events@) =~= seq![Signal::HoldFire]);
        }
        RadarSweep { events, hold_fire: true }
    } else {
        let ghost prevs = name_seq(prev_nations@);
        let ghost currs = name_seq(curr.nations@);
        let mut events: Vec<RadarCommand> = Vec::new();
        let mut i: usize = 0;
        proof {
            assert(prevs.take(0) =~= Seq::<Seq<char>>::empty());
            assert(signals(events@) =~= departure_signals(prevs.take(0), currs));
        }
        while i < prev_nations.len()
            invariant
                i <= prev_nations@.len(),
                prevs == name_seq(prev_nations@),
                currs == name_seq(curr.nations@),
                signals(events@) == departure_signals(prevs.take(i as int), currs),
            decreases prev_nations@.len() - i,
        {
            let name = prev_nations[i].clone();
            let ghost old_events = events@;
            if !contains_name(&curr.nations, &name) {
                events.push(RadarCommand::Seperate(name));
            }
            proof {
                assert(prevs.take(i + 1) =~= prevs.take(i as int).push(prevs[i as int]));
                assert(prevs[i as int] == prev_nations@[i as int]@);
                lemma_departures_step(prevs.take(i as int), currs, prevs[i as int]);
                if !currs.contains(prev_nations@[i as int]@) {
                    assert(signals(events@) =~= signals(old_events).push(
                        Signal::Seperate(prev_nations@[i as int]@),
                    ));
                } else {
                    assert(signals(events@) == signals(old_events));
                }
                assert(signals(events@) =~= departure_signals(prevs.take(i + 1), currs));
            }
            i = i + 1;
        }
        proof {
            assert(prevs.take(prev_nations@.len() as int) =~= prevs);
        }
        let ghost deps = departure_signals(prevs, currs);
        let mut i: usize = 0;
        proof {
            assert(currs.take(0) =~= Seq::<Seq<char>>::empty());
            assert(signals(events@) =~= deps + arrival_signals(prevs, currs.take(0), iff));
        }
        while i < curr.nations.len()
            invariant
                i <= curr.nations@.len(),
                prevs == name_seq(prev_nations@),
                currs == name_seq(curr.nations@),
                deps == departure_signals(prevs, currs),
                signals(events@) == deps + arrival_signals(prevs, currs.take(i as int), iff),
            decreases curr.nations@.len() - i,
        {
            let name = curr.nations[i].clone();
            let ghost old_events = events@;
            let is_new = !contains_name(prev_nations, &name);
            let mut hostile = false;
            if is_new {
                let d = iff.classify(&name);
                hostile = d == Disposition::Hostile;
            }
            if is_new && hostile {
                events.push(RadarCommand::Inbound(name));
            }
            proof {
                assert(currs.take(i + 1) =~= currs.take(i as int).push(currs[i as int]));
                assert(currs[i as int] == curr.nations@[i as int]@);
                lemma_arrivals_step(prevs, currs.take(i as int), currs[i as int], iff);
                if !prevs.contains(curr.nations@[i as int]@) && iff.disposition_of(
                    canon_seq(curr.nations@[i as int]@),
                ) == Disposition::Hostile {
                    assert(signals(events@) =~= signals(old_events).push(
                        Signal::Inbound(curr.nations@[i as int]@),
                    ));
                } else {
                    assert(signals(events@) == signals(old_events));
                }
                assert(signals(events@) =~= deps + arrival_signals(prevs, currs.take(i + 1), iff));
            }
            i = i + 1;
        }
        proof {
            assert(currs.take(curr.nations@.len() as int) =~= currs);
        }
        RadarSweep { events, hold_fire: false }
    }
}

} // verus!

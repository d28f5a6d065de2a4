//! The event loop's decisions. The loop itself waits on the transport: it
//! reads one line, asks [`classify_event`] what the line means, and — for a
//! bell — queries the window directory and asks [`decide_bell`] for the
//! outcome before it waits for the next event. Only a transport failure
//! ends the loop; every other failure degrades to a default decided here.

use vstd::prelude::*;

use crate::config::Config;
use crate::config::Volume;
use crate::event::first_delim;
use crate::event::split_event;
use crate::hypr::first_matching_rule;
use crate::hypr::HyprClient;

verus! {

/// What the dispatcher decides for one bell event: the path of the sound to
/// play, or nothing audible, and the volume to play it at.
#[derive(Debug)]
pub struct MatchOutcome {
    /// The sound to hand to the playback collaborator; absent means silence.
    pub sound: Option<String>,
    /// The volume for that sound.
    pub volume: Volume,
}

/// What the event loop does with one decoded line.
#[derive(Debug)]
pub enum EventAction {
    /// The line held no delimiter: log it and await the next event.
    Skip,
    /// The event kind is not `bell`: note it and await the next event.
    Ignore { kind: String },
    /// A bell: query the window directory and match the rules against this
    /// target identifier.
    HandleBell { target: String },
}

/// Decide what to do with one decoded line: skip a line without the
/// delimiter, ignore an event whose kind is not `bell`, and handle a bell by
/// matching its payload.
pub fn classify_event(line: &str) -> (a: EventAction)
    ensures
        match a {
            EventAction::Skip => first_delim(line@) is None,
            EventAction::Ignore { kind } => (first_delim(line@) matches Some(i) && kind@
                == line@.take(i) && kind@ != "bell"@),
            EventAction::HandleBell { target } => (first_delim(line@) matches Some(i)
                && line@.take(i) == "bell"@ && target@ == line@.skip(i + 2)),
        },
{
    match split_event(line) {
        None => EventAction::Skip,
        Some((kind, payload)) => {
            if kind == "bell".to_owned() {
                EventAction::HandleBell { target: payload }
            } else {
                EventAction::Ignore { kind }
            }
        },
    }
}

/// The global default outcome: the configured sound, if any, at the
/// configured volume.
pub open spec fn spec_default_outcome(config: Config) -> (Option<Seq<char>>, Volume) {
    (
        match config.sound {
            Some(s) => Some(s@),
            None => None,
        },
        config.volume,
    )
}

/// The outcome for a bell event. A failed directory query skips the rules
/// and yields the global default. Otherwise the first matching rule decides:
/// its sound — possibly absent, explicit silence — at its volume; when no
/// rule matches, the global default outcome stands.
pub open spec fn spec_bell_outcome(
    clients: Option<Seq<HyprClient>>,
    target: Seq<char>,
    config: Config,
) -> (Option<Seq<char>>, Volume) {
    match clients {
        None => spec_default_outcome(config),
        Some(cs) => match first_matching_rule(cs, target, config.rules@) {
            Some(i) => (
                match config.rules@[i].sound {
                    Some(s) => Some(s@),
                    None => None,
                },
                config.rules@[i].volume,
            ),
            None => spec_default_outcome(config),
        },
    }
}

/// The view of an outcome: the sound path's characters, if any, and the
/// volume.
pub open spec fn outcome_view(o: MatchOutcome) -> (Option<Seq<char>>, Volume) {
    (
        match o.sound {
            Some(s) => Some(s@),
            None => None,
        },
        o.volume,
    )
}

/// Resolve one bell event to its outcome. `clients` is the directory
/// query's result: the window list on success, nothing on failure — failure
/// degrades to the global default without consulting the rules.
pub fn decide_bell(clients: Option<&Vec<HyprClient>>, target: &str, config: &Config) -> (o:
    MatchOutcome)
    ensures
        clients matches Some(cs) ==> outcome_view(o) == spec_bell_outcome(
            Some(cs@),
            target@,
            *config,
        ),
        clients is None ==> outcome_view(o) == spec_default_outcome(*config),
{
    match clients {
        None => MatchOutcome { sound: clone_sound(&config.sound), volume: config.volume },
        Some(cs) => {
            match HyprClient::match_rules(cs.as_slice(), target, &config.rules) {
                Some(i) => {
                    proof {
                        crate::hypr::lemma_first_matching_rule_some(
                            cs@,
                            target@,
                            config.rules@,
                            i as int,
                        );
                    }
                    MatchOutcome {
                        sound: clone_sound(&config.rules[i].sound),
                        volume: config.rules[i].volume,
                    }
                },
                None => {
                    proof {
                        crate::hypr::lemma_first_matching_rule_none(cs@, target@, config.rules@);
                    }
                    MatchOutcome { sound: clone_sound(&config.sound), volume: config.volume }
                },
            }
        },
    }
}

/// A copy of an optional sound path.
fn clone_sound(s: &Option<String>) -> (r: Option<String>)
    ensures
        r == *s,
{
    match s {
        None => None,
        Some(path) => Some(path.clone()),
    }
}

} // verus!

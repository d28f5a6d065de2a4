use vstd::prelude::*;

use crate::pattern::TextPattern;

verus! {

/// Number of volume units that make up full volume.
pub const VOLUME_FULL: u32 = 1000000;

/// A playback volume, held in millionths of full scale.
///
/// The configuration boundary accepts volumes in the closed interval from
/// silence to full scale; anything outside is rejected there and never
/// reaches the matching engine.
#[derive(Clone, Copy, Debug)]
pub struct Volume {
    millionths: u32,
}

impl Volume {
    /// How many millionths of full scale this volume stands for.
    pub closed spec fn spec_millionths(self) -> u32 {
        self.millionths
    }

    #[verifier::type_invariant]
    pub closed spec fn inv(self) -> bool {
        self.millionths <= VOLUME_FULL
    }

    /// The validity test applied at the configuration boundary: a volume is
    /// accepted exactly when it lies between silence and full scale.
    pub open spec fn valid_millionths(m: i64) -> bool {
        0 <= m <= VOLUME_FULL as i64
    }

    /// Accepts a volume given in millionths of full scale, rejecting any
    /// value outside the configured domain.
    pub fn from_millionths(m: i64) -> (r: Option<Volume>)
        ensures
            r is Some <==> Self::valid_millionths(m),
            r is Some ==> r->0.spec_millionths() == m,
    {
        if 0 <= m && m <= VOLUME_FULL as i64 {
            Some(Volume { millionths: m as u32 })
        } else {
            None
        }
    }

    /// The volume as millionths of full scale, always within the domain.
    pub fn millionths(&self) -> (r: u32)
        ensures
            r == self.spec_millionths(),
            r <= VOLUME_FULL,
    {
        proof {
            use_type_invariant(self);
        }
        self.millionths
    }
}

impl Default for Volume {
    /// The default volume is full scale.
    fn default() -> (r: Volume)
        ensures
            r.spec_millionths() == VOLUME_FULL,
    {
        Volume { millionths: VOLUME_FULL }
    }
}

/// The `workspace` key of a rule: a number in the configuration matches the
/// workspace's id, a string matches its name.
#[derive(Debug, PartialEq, Eq)]
pub enum WorkspaceRule {
    /// `id` of the workspace.
    Id(i32),
    /// `name` of the workspace.
    Name(String),
}

/// A rule that matches against properties of the window that sent the `bell`
/// event. Every absent field is a wildcard, satisfied by any window.
#[derive(Debug)]
pub struct Rule {
    /// Path of the audio file to play when this rule matches. Absent means
    /// explicit silence, even when the global sound is set.
    pub sound: Option<String>,

    /// The volume of the sound; full scale when the key is absent.
    pub volume: Volume,

    /// The workspace that the source window must live in.
    pub workspace: Option<WorkspaceRule>,

    /// Whether the source window must be floating.
    pub floating: Option<bool>,

    /// A pattern searched in the `class` property of the source window.
    pub class_regex: Option<TextPattern>,

    /// A pattern searched in the `title` property of the source window.
    pub title_regex: Option<TextPattern>,

    /// Whether the source window must be an XWayland window.
    pub xwayland: Option<bool>,
}

impl Default for Rule {
    /// A rule with every predicate absent: it matches any window, plays
    /// nothing, at full volume.
    fn default() -> (r: Rule)
        ensures
            r.sound is None,
            r.volume.spec_millionths() == VOLUME_FULL,
            r.workspace is None,
            r.floating is None,
            r.class_regex is None,
            r.title_regex is None,
            r.xwayland is None,
    {
        Rule {
            sound: None,
            volume: Volume::default(),
            workspace: None,
            floating: None,
            class_regex: None,
            title_regex: None,
            xwayland: None,
        }
    }
}

/// The daemon's configuration: a global default outcome and an ordered rule
/// list, checked first match first.
#[derive(Debug)]
pub struct Config {
    /// Path of the audio file played when no rule decides otherwise. Absent
    /// means no sound plays at all by default.
    pub sound: Option<String>,

    /// The volume used with the global sound; full scale when absent.
    pub volume: Volume,

    /// Rules checked in order against the source window; the first match
    /// wins.
    pub rules: Vec<Rule>,
}

/// Whether `p` is the path of a sound the configuration can ask for: the
/// global sound or any rule's sound.
pub open spec fn is_configured_sound(config: Config, p: Seq<char>) -> bool {
    ||| (config.sound matches Some(s) && s@ == p)
    ||| exists|i: int|
        0 <= i < config.rules@.len() && ((#[trigger] config.rules@[i].sound) matches Some(s) && s@
            == p)
}

/// Append `path` unless an equal path is already present.
fn push_if_absent(v: &mut Vec<String>, path: &String)
    ensures
        forall|k: int| 0 <= k < old(v)@.len() ==> final(v)@[k] == old(v)@[k],
        (exists|k: int| 0 <= k < old(v)@.len() && (#[trigger] old(v)@[k])@ == path@) ==> final(v)@
            == old(v)@,
        !(exists|k: int| 0 <= k < old(v)@.len() && (#[trigger] old(v)@[k])@ == path@)
            ==> (final(v)@.len() == old(v)@.len() + 1 && final(v)@.last()@ == path@),
{
    let n = v.len();
    let mut i: usize = 0;
    while i < n
        invariant
            i <= n,
            n == v@.len(),
            v@ == old(v)@,
            forall|k: int| 0 <= k < i ==> (#[trigger] v@[k])@ != path@,
        decreases n - i,
    {
        if v[i] == *path {
            return ;
        }
        i += 1;
    }
    v.push(path.clone());
}

impl Config {
    /// Every distinct sound path the configuration can ask for — the global
    /// sound and each rule's sound, no path twice — so that all of them can
    /// be loaded into the cache up front.
    pub fn sound_paths(&self) -> (r: Vec<String>)
        ensures
            forall|k: int| 0 <= k < r@.len() ==> is_configured_sound(*self, (#[trigger] r@[k])@),
            forall|p: Seq<char>|
                #[trigger] is_configured_sound(*self, p) ==> exists|k: int|
                    0 <= k < r@.len() && (#[trigger] r@[k])@ == p,
            forall|k: int, l: int| 0 <= k < l < r@.len() ==> (#[trigger] r@[k])@ != (#[trigger] r@[l])@,
    {
        let mut r: Vec<String> = Vec::new();
        match &self.sound {
            Some(s) => {
                r.push(s.clone());
                proof {
                    assert(r@[0]@ == self.sound->0@);
                }
            },
            None => {},
        }
        let n = self.rules.len();
        let mut i: usize = 0;
        while i < n
            invariant
                i <= n,
                n == self.rules@.len(),
                forall|k: int| 0 <= k < r@.len() ==> is_configured_sound(*self, (#[trigger] r@[k])@),
                self.sound matches Some(s) ==> exists|k: int|
                    0 <= k < r@.len() && (#[trigger] r@[k])@ == s@,
                forall|j: int|
                    (0 <= j < i && (#[trigger] self.rules@[j].sound) is Some) ==> exists|k: int|
                        0 <= k < r@.len() && (#[trigger] r@[k])@ == self.rules@[j].sound->0@,
                forall|k: int, l: int|
                    0 <= k < l < r@.len() ==> (#[trigger] r@[k])@ != (#[trigger] r@[l])@,
            decreases n - i,
        {
            match &self.rules[i].sound {
                Some(s) => {
                    push_if_absent(&mut r, s);
                },
                None => {},
            }
            i += 1;
        }
        r
    }
}

impl Default for Config {
    /// The configuration used when none can be loaded: no sound, full
    /// volume, no rules.
    fn default() -> (r: Config)
        ensures
            r.sound is None,
            r.volume.spec_millionths() == VOLUME_FULL,
            r.rules@.len() == 0,
    {
        Config { sound: None, volume: Volume::default(), rules: Vec::new() }
    }
}

} // verus!

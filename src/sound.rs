//! Which sound a dispatch plays, and when it falls back to a bundled one.
use vstd::prelude::*;

use crate::schedule::{kind_default_sound, BuiltinSound, PeriodKind, SoundSlots, SoundSource};

verus! {

/// The sound handed to the player: a bundled asset or the bytes of a user file.
#[derive(Debug, PartialEq, Eq)]
pub enum PreparedSound {
    Builtin(BuiltinSound),
    Local(Vec<u8>),
}

/// What to play, what to play instead if that fails to decode at play time,
/// and the warning to surface, if any.
#[derive(Debug)]
pub struct SoundPlan {
    pub sound: PreparedSound,
    pub fallback: Option<BuiltinSound>,
    pub warning: Option<String>,
}

/// The warning given when a user sound could not be used.
pub open spec fn fallback_warning() -> Seq<char> {
    "本地音效失效，已回退默认"@
}

/// The source configured for periods of kind `kind`.
pub open spec fn slot_for(kind: PeriodKind, slots: SoundSlots) -> SoundSource {
    match kind {
        PeriodKind::Start => slots.start,
        PeriodKind::End => slots.end,
    }
}

/// The source configured for periods of kind `kind`.
pub fn selected_source(kind: PeriodKind, slots: &SoundSlots) -> (r: &SoundSource)
    ensures
        *r == slot_for(kind, *slots),
{
    match kind {
        PeriodKind::Start => &slots.start,
        PeriodKind::End => &slots.end,
    }
}

/// Plans the sound for a period of kind `kind`. Where the configured source is
/// a user file, `local_bytes` is what reading it gave (`None` where reading
/// failed) and `decodes` whether those bytes passed a decode probe.
///
/// A bundled source is played as it is. A user file that could not be read or
/// decoded is replaced by the kind's default bundled sound, with a warning; a
/// user file that decodes is played, with the default armed as a fallback in
/// case decoding fails at play time.
pub fn plan_sound(
    kind: PeriodKind,
    slots: &SoundSlots,
    local_bytes: Option<Vec<u8>>,
    decodes: bool,
) -> (r: SoundPlan)
    ensures
        slot_for(kind, *slots) matches SoundSource::Builtin(b) ==> {
            &&& r.sound == PreparedSound::Builtin(b)
            &&& r.fallback is None
            &&& r.warning is None
        },
        slot_for(kind, *slots) is Local ==> match local_bytes {
            Some(bytes) => if decodes {
                &&& r.sound == PreparedSound::Local(bytes)
                &&& r.fallback == Some(kind_default_sound(kind))
                &&& r.warning is None
            } else {
                &&& r.sound == PreparedSound::Builtin(kind_default_sound(kind))
                &&& r.fallback is None
                &&& r.warning matches Some(w) && w@ == fallback_warning()
            },
            None => {
                &&& r.sound == PreparedSound::Builtin(kind_default_sound(kind))
                &&& r.fallback is None
                &&& r.warning matches Some(w) && w@ == fallback_warning()
            },
        },
{
    let default_builtin = kind.default_builtin_sound();
    match selected_source(kind, slots) {
        SoundSource::Builtin(b) => SoundPlan {
            sound: PreparedSound::Builtin(*b),
            fallback: None,
            warning: None,
        },
        SoundSource::Local { .. } => match local_bytes {
            Some(bytes) => {
                if decodes {
                    SoundPlan {
                        sound: PreparedSound::Local(bytes),
                        fallback: Some(default_builtin),
                        warning: None,
                    }
                } else {
                    SoundPlan {
                        sound: PreparedSound::Builtin(default_builtin),
                        fallback: None,
                        warning: Some("本地音效失效，已回退默认".to_owned()),
                    }
                }
            },
            None => SoundPlan {
                sound: PreparedSound::Builtin(default_builtin),
                fallback: None,
                warning: Some("本地音效失效，已回退默认".to_owned()),
            },
        },
    }
}

} // verus!

//! Timestamp display knobs for the default line formatter.

use crate::clock;
use crate::clock::IanaZone;
use crate::text;
use vstd::prelude::*;

verus! {

/// When and how wall-clock prefixes are emitted (default formatter only).
#[derive(Clone, Copy, Debug, PartialEq, Eq, Structural)]
pub enum TimestampStyle {
    Omit,
    /// RFC 3339 with nanosecond precision.
    Rfc3339,
    /// Compact `MM-DD HH:MM:SS` in [`TimestampZone`].
    SternShort,
    /// Unix epoch seconds (UTC clock; ignores display zone).
    EpochSeconds,
}

/// Zone mapping for textual stamps.
#[derive(Debug)]
pub enum TimestampZone {
    Utc,
    Local,
    Iana(IanaZone),
}

/// Whether two zones are the same.
pub open spec fn same_zone(a: TimestampZone, b: TimestampZone) -> bool {
    match (a, b) {
        (TimestampZone::Utc, TimestampZone::Utc) => true,
        (TimestampZone::Local, TimestampZone::Local) => true,
        (TimestampZone::Iana(x), TimestampZone::Iana(y)) => x@ == y@,
        _ => false,
    }
}

impl Clone for TimestampZone {
    fn clone(&self) -> (copy: Self)
        ensures
            same_zone(copy, *self),
    {
        match self {
            TimestampZone::Utc => TimestampZone::Utc,
            TimestampZone::Local => TimestampZone::Local,
            TimestampZone::Iana(zone) => TimestampZone::Iana(zone.clone()),
        }
    }
}

/// Whether two texts differ at most in the case of ASCII letters.
pub open spec fn same_word(a: Seq<char>, b: Seq<char>) -> bool {
    text::ascii_lowered(a) == text::ascii_lowered(b)
}

/// Whether `zone` is what the trimmed argument `name` stands for, where looking it up gave `found`.
pub open spec fn is_zone_of(name: Seq<char>, found: bool, zone: Result<TimestampZone, String>) -> bool {
    if name.len() == 0 {
        zone matches Err(e) && e@ == "empty --timezone"@
    } else if same_word(name, "utc"@) {
        zone matches Ok(z) && z is Utc
    } else if same_word(name, "local"@) {
        zone matches Ok(z) && z is Local
    } else if found {
        zone matches Ok(TimestampZone::Iana(z)) && z@ == name
    } else {
        zone matches Err(e) && e@ == "invalid --timezone ("@ + name + ")"@
    }
}

impl TimestampZone {
    /// The zone that a trimmed argument stands for, where looking it up gave `found`.
    pub fn from_lookup(name: &str, found: Option<IanaZone>) -> (zone: Result<Self, String>)
        requires
            found matches Some(z) ==> z@ == name@,
        ensures
            is_zone_of(name@, found is Some, zone),
    {
        if name.is_empty() {
            return Err("empty --timezone".to_owned());
        }
        if text::eq_ignore_ascii_case(name, "utc") {
            return Ok(TimestampZone::Utc);
        }
        if text::eq_ignore_ascii_case(name, "local") {
            return Ok(TimestampZone::Local);
        }
        match found {
            Some(z) => Ok(TimestampZone::Iana(z)),
            None => Err("invalid --timezone (".to_owned().concat(name).concat(")")),
        }
    }

    /// Parses a zone argument: `utc`, `local`, or the name of an IANA zone.
    pub fn parse_arg(s: &str) -> (zone: Result<Self, String>)
        ensures
            is_zone_of(text::trimmed(s@), clock::zone_known(text::trimmed(s@)), zone),
    {
        let name = text::trim(s);
        Self::from_lookup(name, IanaZone::lookup(name))
    }
}

/// The zones are told by their name alone, whatever its case: `utc` and `local` are no IANA zones
/// even where one of that name is known, and any other name is one exactly if it is known.
pub proof fn law_zone_names(name: Seq<char>, found: bool, zone: Result<TimestampZone, String>)
    requires
        is_zone_of(name, found, zone),
    ensures
        (zone matches Ok(z) && z is Utc) <==> text::ascii_lowered(name) == "utc"@,
        (zone matches Ok(z) && z is Local) <==> text::ascii_lowered(name) == "local"@,
        (zone matches Ok(z) && z is Iana) <==> name.len() > 0 && found && text::ascii_lowered(name)
            != "utc"@ && text::ascii_lowered(name) != "local"@,
        zone matches Ok(TimestampZone::Iana(z)) ==> z@ == name,
        zone matches Err(e) ==> e@ == if name.len() == 0 {
            "empty --timezone"@
        } else {
            "invalid --timezone ("@ + name + ")"@
        },
{
    reveal_strlit("utc");
    reveal_strlit("local");
    assert(text::ascii_lowered("utc"@) =~= "utc"@);
    assert(text::ascii_lowered("local"@) =~= "local"@);
    assert("utc"@.len() != "local"@.len());
}

/// Zones are the same exactly if both are UTC, both are that of the machine, or both have the same
/// name.
pub proof fn law_same_zone(a: TimestampZone, b: TimestampZone)
    requires
        same_zone(a, b),
    ensures
        a is Utc <==> b is Utc,
        a is Local <==> b is Local,
        a matches TimestampZone::Iana(x) ==> (b matches TimestampZone::Iana(y) && x@ == y@),
{
}

} // verus!

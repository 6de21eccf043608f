//! Palette slots for pod and container names.

use crate::source::{LogEvent, LogSourceError, SourceMeta};
use seahash::SeaHasher;
use std::hash::{Hash, Hasher};
use vstd::prelude::*;

verus! {

/// How many palette slots there are.
pub const PALETTE_SLOTS: u64 = 16;

/// Which names get a palette slot.
#[derive(Debug, Clone, Copy, PartialEq, Eq, Structural)]
pub struct ColorAssignOpts {
    pub pod_colors: bool,
    pub container_colors: bool,
    pub diff_container: bool,
}

impl Default for ColorAssignOpts {
    fn default() -> (opts: Self)
        ensures
            opts == (ColorAssignOpts {
                pod_colors: false,
                container_colors: false,
                diff_container: false,
            }),
    {
        ColorAssignOpts { pod_colors: false, container_colors: false, diff_container: false }
    }
}

/// The hash that a `seahash::SeaHasher` with the default seeds gives for a text.
pub uninterp spec fn sea_hash(text: Seq<char>) -> u64;

/// `seahash::SeaHasher` hashes a text with its default seeds.
#[verifier::external_body]
fn hash_text(text: &str) -> (hash: u64)
    ensures
        hash == sea_hash(text@),
{
    let mut hasher = SeaHasher::new();
    text.hash(&mut hasher);
    hasher.finish()
}

/// The palette slot that a hash falls into.
pub open spec fn slot(hash: u64) -> u8 {
    (hash % PALETTE_SLOTS) as u8
}

/// The palette slot of a name.
pub open spec fn palette_slot(name: Seq<char>) -> u8 {
    slot(sea_hash(name))
}

/// The palette slot that a hash falls into.
pub fn slot_of_hash(hash: u64) -> (index: u8)
    ensures
        index == slot(hash),
        index < PALETTE_SLOTS,
{
    (hash % PALETTE_SLOTS) as u8
}

/// The palette slot of a name: always the same for the same name.
fn stable_palette_index(key: &str) -> (index: u8)
    ensures
        index == palette_slot(key@),
        index < PALETTE_SLOTS,
{
    slot_of_hash(hash_text(key))
}

/// The name by which a container gets its slot.
pub open spec fn container_slot_name(meta: SourceMeta, opts: ColorAssignOpts) -> Seq<char> {
    if opts.diff_container {
        meta.container@
    } else {
        meta.pod@
    }
}

/// The name by which a container gets its slot.
fn container_palette_key(meta: &SourceMeta, opts: ColorAssignOpts) -> (name: &str)
    ensures
        name@ == container_slot_name(*meta, opts),
{
    if opts.diff_container {
        meta.container.as_str()
    } else {
        meta.pod.as_str()
    }
}

/// Gives a source its slots; a slot that is not asked for stays as it is.
pub fn apply_palette_to_meta(meta: &mut SourceMeta, opts: ColorAssignOpts)
    ensures
        *final(meta) == (SourceMeta {
            palette_index: if opts.pod_colors {
                Some(palette_slot(old(meta).pod@))
            } else {
                old(meta).palette_index
            },
            container_palette_index: if opts.container_colors {
                Some(palette_slot(container_slot_name(*old(meta), opts)))
            } else {
                old(meta).container_palette_index
            },
            ..*old(meta)
        }),
{
    if opts.pod_colors {
        meta.palette_index = Some(stable_palette_index(meta.pod.as_str()));
    }
    if opts.container_colors {
        meta.container_palette_index = Some(stable_palette_index(container_palette_key(meta, opts)));
    }
}

/// A line with the slots that it lacks and that are asked for.
pub open spec fn colored(ev: LogEvent, opts: ColorAssignOpts) -> LogEvent {
    LogEvent {
        palette_index: if opts.pod_colors && ev.palette_index is None {
            Some(palette_slot(ev.source.pod@))
        } else {
            ev.palette_index
        },
        container_palette_index: if opts.container_colors && ev.container_palette_index is None {
            Some(palette_slot(container_slot_name(*ev.source, opts)))
        } else {
            ev.container_palette_index
        },
        ..ev
    }
}

/// Gives a line the slots that it lacks and that are asked for.
pub fn color_assign(item: Result<LogEvent, LogSourceError>, opts: ColorAssignOpts) -> (out: Result<
    LogEvent,
    LogSourceError,
>)
    ensures
        match item {
            Ok(ev) => out == Ok::<LogEvent, LogSourceError>(colored(ev, opts)),
            Err(e) => out == Err::<LogEvent, LogSourceError>(e),
        },
{
    match item {
        Ok(ev) => {
            let mut ev = ev;
            if opts.pod_colors && ev.palette_index.is_none() {
                ev.palette_index = Some(stable_palette_index(ev.source.pod.as_str()));
            }
            if opts.container_colors && ev.container_palette_index.is_none() {
                ev.container_palette_index = Some(
                    stable_palette_index(container_palette_key(&ev.source, opts)),
                );
            }
            Ok(ev)
        },
        Err(e) => Err(e),
    }
}

/// Every name has a slot of the palette.
pub proof fn law_slots_are_in_palette(name: Seq<char>)
    ensures
        palette_slot(name) < PALETTE_SLOTS,
{
}

/// Without `diff_container` a container shares the slot of its pod.
pub proof fn law_container_shares_pod_slot(ev: LogEvent)
    requires
        ev.palette_index is None,
        ev.container_palette_index is None,
    ensures
        ({
            let out = colored(
                ev,
                ColorAssignOpts { pod_colors: true, container_colors: true, diff_container: false },
            );
            out.palette_index == out.container_palette_index
        }),
{
}

/// Assigning slots a second time changes nothing.
pub proof fn law_coloring_is_idempotent(ev: LogEvent, opts: ColorAssignOpts)
    ensures
        colored(colored(ev, opts), opts) == colored(ev, opts),
{
}

/// A line of a source whose slots were worked out at attach keeps them.
pub proof fn law_precomputed_slots_win(ev: LogEvent, opts: ColorAssignOpts)
    requires
        ev.palette_index is Some,
        ev.container_palette_index is Some,
    ensures
        colored(ev, opts) == ev,
{
}

/// The slot of a name is the remainder of its hash by the sixteen slots, so that names with the same
/// hash share one and every slot is used.
pub proof fn law_slot_is_the_remainder(hash: u64)
    ensures
        slot(hash) as int == hash as int % 16,
        hash < 16 ==> slot(hash) == hash,
{
}

/// A pod is colored by its own name. With `diff_container` a container is colored by its own name,
/// whatever pod it stands in; without, by the name of its pod, whatever container it is. A slot that
/// is not asked for stays missing.
pub proof fn law_colors_follow_names(one: LogEvent, other: LogEvent, opts: ColorAssignOpts)
    requires
        one.palette_index is None,
        one.container_palette_index is None,
        other.palette_index is None,
        other.container_palette_index is None,
    ensures
        colored(one, opts).palette_index is Some == opts.pod_colors,
        colored(one, opts).container_palette_index is Some == opts.container_colors,
        one.source.pod@ == other.source.pod@ ==> colored(one, opts).palette_index == colored(
            other,
            opts,
        ).palette_index,
        opts.diff_container && one.source.container@ == other.source.container@ ==> colored(
            one,
            opts,
        ).container_palette_index == colored(other, opts).container_palette_index,
        !opts.diff_container && one.source.pod@ == other.source.pod@ ==> colored(
            one,
            opts,
        ).container_palette_index == colored(other, opts).container_palette_index,
        opts.pod_colors ==> colored(one, opts).palette_index->0 as int == sea_hash(
            one.source.pod@,
        ) as int % 16,
        opts.container_colors && opts.diff_container ==> colored(
            one,
            opts,
        ).container_palette_index->0 as int == sea_hash(one.source.container@) as int % 16,
{
}

/// A slot that a line has already is never replaced.
pub proof fn law_given_slots_stay(ev: LogEvent, opts: ColorAssignOpts)
    ensures
        ev.palette_index is Some ==> colored(ev, opts).palette_index == ev.palette_index,
        ev.container_palette_index is Some ==> colored(ev, opts).container_palette_index
            == ev.container_palette_index,
        colored(ev, opts).message == ev.message,
        colored(ev, opts).level == ev.level,
        colored(ev, opts).source == ev.source,
        colored(ev, opts).structured == ev.structured,
        colored(ev, opts).timestamp == ev.timestamp,
{
}

/// A hash of another slot gives another slot.
pub proof fn law_slots_by_remainder(a: u64, b: u64)
    ensures
        slot(a) == slot(b) <==> a % 16 == b % 16,
{
}

} // verus!

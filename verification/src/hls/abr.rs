//! Adaptive bitrate (ABR) decisions: which quality levels may play (level
//! capping) and which level to switch to.
//!
//! The bandwidth estimate, the dropped-frame ratio and the switch cooldown are
//! measured by the embedding player; this controller takes their outcome as
//! [`AbrSignals`] and decides.
use crate::hls::config::{HlsConfig, LevelCapConfig, QualitySwitchMode};
use crate::hls::master::{copy_opt, level_views};
use crate::hls::playlist::{fits, hdcp_compatible, Level, LevelV};
use vstd::prelude::*;

verus! {

/// ABR operation mode.
#[derive(Clone, Copy, Debug, PartialEq, Eq, Structural)]
pub enum AbrMode {
    /// Automatic quality selection based on bandwidth
    Auto,
    /// Manual quality selection (locked to a level)
    Manual(usize),
}

impl Default for AbrMode {
    /// Automatic quality selection.
    fn default() -> (r: Self)
        ensures
            r == AbrMode::Auto,
    {
        AbrMode::Auto
    }
}

/// Why a level switch was chosen.
#[derive(Clone, Copy, Debug, PartialEq, Eq, Structural)]
pub enum SwitchReason {
    /// Manual selection by the user
    Manual,
    /// The bandwidth estimate increased
    BandwidthIncrease,
    /// The bandwidth estimate decreased
    BandwidthDecrease,
    /// Emergency switch due to buffer starvation
    Emergency,
    /// Too many dropped frames
    DroppedFrames,
    /// Level capping applied
    LevelCap,
}

/// Result of level selection.
#[derive(Clone, Copy, Debug, PartialEq, Eq, Structural)]
pub enum LevelSelection {
    /// Keep the current level
    KeepCurrent,
    /// Switch to a new level
    Switch { from: usize, to: usize, reason: SwitchReason },
}

/// The bandwidth estimate scaled two ways, in bits per second.
#[derive(Clone, Copy, Debug, PartialEq, Eq, Structural)]
pub struct BandwidthBudget {
    /// The estimate scaled by the emergency switch threshold
    pub emergency: u64,
    /// The estimate scaled by the bandwidth safety factor
    pub normal: u64,
}

/// What the player measured before asking for a level.
#[derive(Clone, Copy, Debug, PartialEq, Eq, Structural)]
pub struct AbrSignals {
    /// The last switch was less than the switch cooldown ago
    pub cooling_down: bool,
    /// The dropped-frame ratio exceeds the configured maximum
    pub too_many_dropped: bool,
    /// The bandwidth budget, when there is an estimate
    pub bandwidth: Option<BandwidthBudget>,
    /// The buffer is critically short (under 2 seconds)
    pub buffer_critical: bool,
    /// The buffer is long enough (at least 10 seconds) for an upward switch
    pub buffer_allows_up: bool,
}

/// The configured caps as plain values.
pub struct CapV {
    pub max_width: u32,
    pub max_height: u32,
    pub max_bitrate: u64,
    pub hdcp_level: Option<Seq<char>>,
}

/// Whether a level passes the caps: its resolution fits the configured maximum
/// and, when capping to the player, the player's effective size; its bitrate is
/// within the maximum (0 = none); its HDCP level is compatible.
pub open spec fn level_allowed(
    l: LevelV,
    cap: CapV,
    player: Option<(u32, u32)>,
    cap_to_player: bool,
) -> bool {
    &&& fits(l.resolution, cap.max_width, cap.max_height)
    &&& (cap_to_player ==> match player {
        Some((w, h)) => fits(l.resolution, w, h),
        None => true,
    })
    &&& (cap.max_bitrate == 0 || l.bitrate <= cap.max_bitrate)
    &&& hdcp_compatible(l.hdcp_level, cap.hdcp_level)
}

/// The indexes of the levels that pass the caps, in order.
pub open spec fn passing_indexes(
    levels: Seq<LevelV>,
    cap: CapV,
    player: Option<(u32, u32)>,
    cap_to_player: bool,
) -> Seq<usize>
    decreases levels.len(),
{
    if levels.len() == 0 {
        Seq::empty()
    } else if level_allowed(levels.last(), cap, player, cap_to_player) {
        passing_indexes(levels.drop_last(), cap, player, cap_to_player).push(levels.last().index)
    } else {
        passing_indexes(levels.drop_last(), cap, player, cap_to_player)
    }
}

/// The position of the first level of lowest bitrate.
pub open spec fn first_lowest(levels: Seq<LevelV>) -> int
    decreases levels.len(),
{
    if levels.len() <= 1 {
        0
    } else {
        let p = first_lowest(levels.drop_last());
        if levels.last().bitrate < levels[p].bitrate {
            levels.len() - 1
        } else {
            p
        }
    }
}

/// The allowed level indexes: those passing the caps, or, when none passes, the
/// index of the first level of lowest bitrate.
pub open spec fn capped_indexes(
    levels: Seq<LevelV>,
    cap: CapV,
    player: Option<(u32, u32)>,
    cap_to_player: bool,
) -> Seq<usize> {
    let p = passing_indexes(levels, cap, player, cap_to_player);
    if p.len() == 0 && levels.len() > 0 {
        seq![levels[first_lowest(levels)].index]
    } else {
        p
    }
}

/// Of the allowed positions that are valid positions in `levels` and whose
/// bitrate is within `bound` (below it when `strict`), the one of highest
/// bitrate; of several, the last (as `Iterator::max_by_key` picks).
pub open spec fn best_allowed(
    levels: Seq<LevelV>,
    allowed: Seq<usize>,
    bound: u64,
    strict: bool,
) -> Option<usize>
    decreases allowed.len(),
{
    if allowed.len() == 0 {
        None
    } else {
        let prev = best_allowed(levels, allowed.drop_last(), bound, strict);
        let idx = allowed.last();
        if idx < levels.len() && (if strict {
            levels[idx as int].bitrate < bound
        } else {
            levels[idx as int].bitrate <= bound
        }) && (match prev {
            None => true,
            Some(p) => levels[idx as int].bitrate >= levels[p as int].bitrate,
        }) {
            Some(idx)
        } else {
            prev
        }
    }
}

/// The ABR controller's state as plain values.
pub struct AbrState {
    pub mode: AbrMode,
    pub switch_mode: QualitySwitchMode,
    pub current_level: usize,
    pub next_level: Option<usize>,
    pub capped_levels: Option<Seq<usize>>,
    pub levels: Seq<LevelV>,
}

/// Moving to `level`: at once in `Instant` mode, else on the next fragment.
pub open spec fn after_switch(s: AbrState, level: usize) -> AbrState {
    match s.switch_mode {
        QualitySwitchMode::Instant => AbrState {
            current_level: level,
            next_level: Some(level),
            ..s
        },
        _ => AbrState { next_level: Some(level), ..s },
    }
}

/// Completing a pending switch: its target becomes the current level.
pub open spec fn confirmed(s: AbrState) -> AbrState {
    match s.next_level {
        Some(n) => AbrState { current_level: n, next_level: None, ..s },
        None => s,
    }
}

/// Whether a level is allowed: it is among the capped levels, or no capping has
/// been computed yet.
pub open spec fn allowed_in(s: AbrState, level: usize) -> bool {
    match s.capped_levels {
        Some(c) => c.contains(level),
        None => true,
    }
}

/// A switch to `level` for `reason`; `from` is the level switched away from:
/// the current level before the switch, in every switch mode.
pub open spec fn switch_result(s: AbrState, level: usize, reason: SwitchReason) -> (
    AbrState,
    LevelSelection,
) {
    (after_switch(s, level), LevelSelection::Switch { from: s.current_level, to: level, reason })
}

/// The automatic choice of level.
pub open spec fn auto_choice(s: AbrState, sig: AbrSignals) -> (AbrState, LevelSelection) {
    match s.capped_levels {
        None => (s, LevelSelection::KeepCurrent),
        Some(allowed) => if allowed.len() == 0 {
            (s, LevelSelection::KeepCurrent)
        } else if sig.too_many_dropped && (s.current_level < s.levels.len()) && best_allowed(
            s.levels,
            allowed,
            s.levels[s.current_level as int].bitrate,
            true,
        ) is Some {
            switch_result(
                s,
                best_allowed(s.levels, allowed, s.levels[s.current_level as int].bitrate, true)->0,
                SwitchReason::DroppedFrames,
            )
        } else {
            match sig.bandwidth {
                None => (s, LevelSelection::KeepCurrent),
                Some(bw) => {
                    let emergency = best_allowed(s.levels, allowed, bw.emergency, false);
                    if sig.buffer_critical && emergency is Some && emergency->0 < s.current_level {
                        switch_result(s, emergency->0, SwitchReason::Emergency)
                    } else {
                        match best_allowed(s.levels, allowed, bw.normal, false) {
                            Some(level) => if level == s.current_level {
                                (s, LevelSelection::KeepCurrent)
                            } else if level > s.current_level && !sig.buffer_allows_up {
                                (s, LevelSelection::KeepCurrent)
                            } else {
                                switch_result(
                                    s,
                                    level,
                                    if level > s.current_level {
                                        SwitchReason::BandwidthIncrease
                                    } else {
                                        SwitchReason::BandwidthDecrease
                                    },
                                )
                            },
                            None => (s, LevelSelection::KeepCurrent),
                        }
                    }
                },
            }
        },
    }
}

/// The choice of level: none while cooling down; in manual mode the chosen
/// level when it differs from the current one and is allowed; else the automatic choice.
pub open spec fn choice(s: AbrState, sig: AbrSignals) -> (AbrState, LevelSelection) {
    if sig.cooling_down {
        (s, LevelSelection::KeepCurrent)
    } else {
        match s.mode {
            AbrMode::Manual(level) => if level != s.current_level && allowed_in(s, level) {
                switch_result(s, level, SwitchReason::Manual)
            } else {
                (s, LevelSelection::KeepCurrent)
            },
            AbrMode::Auto => auto_choice(s, sig),
        }
    }
}

/// Whether a bitrate is within `bound` (below it when `strict`).
pub open spec fn within(bitrate: u64, bound: u64, strict: bool) -> bool {
    if strict {
        bitrate < bound
    } else {
        bitrate <= bound
    }
}

/// The best allowed level is one of the allowed positions, a valid position,
/// within the bound, and of the highest bitrate among those; there is none
/// exactly when no allowed position qualifies.
pub proof fn lemma_best_allowed(levels: Seq<LevelV>, allowed: Seq<usize>, bound: u64, strict: bool)
    ensures
        match best_allowed(levels, allowed, bound, strict) {
            Some(i) => {
                &&& allowed.contains(i)
                &&& i < levels.len()
                &&& within(levels[i as int].bitrate, bound, strict)
                &&& forall|k: int|
                    0 <= k < allowed.len() && allowed[k] < levels.len() && within(
                        levels[allowed[k] as int].bitrate,
                        bound,
                        strict,
                    ) ==> levels[allowed[k] as int].bitrate <= levels[i as int].bitrate
            },
            None => forall|k: int|
                0 <= k < allowed.len() && allowed[k] < levels.len() ==> !within(
                    levels[allowed[k] as int].bitrate,
                    bound,
                    strict,
                ),
        },
    decreases allowed.len(),
{
    if allowed.len() > 0 {
        let rest = allowed.drop_last();
        lemma_best_allowed(levels, rest, bound, strict);
        assert forall|k: int| 0 <= k < rest.len() implies rest[k] == allowed[k] by {}
        let idx = allowed.last();
        assert(allowed[allowed.len() - 1] == idx);
        match best_allowed(levels, rest, bound, strict) {
            Some(p) => {
                let j = choose|j: int| 0 <= j < rest.len() && rest[j] == p;
                assert(allowed[j] == p);
            },
            None => {},
        }
    }
}

/// A level is always allowed when there are levels: when none passes the caps,
/// the lowest one is.
pub proof fn law_capped_nonempty(
    levels: Seq<LevelV>,
    cap: CapV,
    player: Option<(u32, u32)>,
    cap_to_player: bool,
)
    requires
        levels.len() > 0,
    ensures
        capped_indexes(levels, cap, player, cap_to_player).len() > 0,
{
}

/// Every allowed index is the index of a level, of one that passes the caps
/// unless none does.
pub proof fn law_capped_are_levels(
    levels: Seq<LevelV>,
    cap: CapV,
    player: Option<(u32, u32)>,
    cap_to_player: bool,
    k: int,
)
    requires
        0 <= k < capped_indexes(levels, cap, player, cap_to_player).len(),
    ensures
        exists|j: int|
            0 <= j < levels.len() && #[trigger] levels[j].index == capped_indexes(
                levels,
                cap,
                player,
                cap_to_player,
            )[k] && (level_allowed(levels[j], cap, player, cap_to_player) || passing_indexes(
                levels,
                cap,
                player,
                cap_to_player,
            ).len() == 0),
{
    let p = passing_indexes(levels, cap, player, cap_to_player);
    if p.len() == 0 && levels.len() > 0 {
        lemma_first_lowest_bounds(levels);
        let j = first_lowest(levels);
        assert(levels[j].index == capped_indexes(levels, cap, player, cap_to_player)[k]);
    } else {
        lemma_passing_from_levels(levels, cap, player, cap_to_player, k);
    }
}

/// Caps of zero and no HDCP requirement cap nothing: without capping to the
/// player, every level is allowed, in order.
pub proof fn law_no_caps_allow_all(levels: Seq<LevelV>, player: Option<(u32, u32)>, cap_to_player: bool)
    requires
        !cap_to_player || player is None,
    ensures
        capped_indexes(
            levels,
            CapV { max_width: 0, max_height: 0, max_bitrate: 0, hdcp_level: None },
            player,
            cap_to_player,
        ) == levels.map_values(|l: LevelV| l.index),
{
    let cap = CapV { max_width: 0, max_height: 0, max_bitrate: 0, hdcp_level: None };
    lemma_no_caps_pass(levels, cap, player, cap_to_player);
    if levels.len() > 0 {
        assert(passing_indexes(levels, cap, player, cap_to_player).len() == levels.len());
    }
}

/// Without caps every level passes.
proof fn lemma_no_caps_pass(levels: Seq<LevelV>, cap: CapV, player: Option<(u32, u32)>, cap_to_player: bool)
    requires
        !cap_to_player || player is None,
        cap == (CapV { max_width: 0, max_height: 0, max_bitrate: 0, hdcp_level: None }),
    ensures
        passing_indexes(levels, cap, player, cap_to_player) == levels.map_values(|l: LevelV| l.index),
    decreases levels.len(),
{
    if levels.len() > 0 {
        lemma_no_caps_pass(levels.drop_last(), cap, player, cap_to_player);
        assert(levels.map_values(|l: LevelV| l.index) =~= levels.drop_last().map_values(
            |l: LevelV| l.index,
        ).push(levels.last().index));
    } else {
        assert(levels.map_values(|l: LevelV| l.index) =~= Seq::<usize>::empty());
    }
}

/// The levels that pass the caps give the passing indexes: exactly the
/// levels kept by the caps, in order, each by its index.
pub proof fn law_passing_is_filter(
    levels: Seq<LevelV>,
    cap: CapV,
    player: Option<(u32, u32)>,
    cap_to_player: bool,
)
    ensures
        passing_indexes(levels, cap, player, cap_to_player) == levels.filter(
            |l: LevelV| level_allowed(l, cap, player, cap_to_player),
        ).map_values(|l: LevelV| l.index),
    decreases levels.len(),
{
    let pred = |l: LevelV| level_allowed(l, cap, player, cap_to_player);
    reveal_with_fuel(Seq::filter, 1);
    if levels.len() == 0 {
        assert(levels.filter(pred).map_values(|l: LevelV| l.index) =~= Seq::<usize>::empty());
    } else {
        let rest = levels.drop_last();
        law_passing_is_filter(rest, cap, player, cap_to_player);
        let fr = rest.filter(pred);
        if pred(levels.last()) {
            assert(fr.push(levels.last()).map_values(|l: LevelV| l.index) =~= fr.map_values(
                |l: LevelV| l.index,
            ).push(levels.last().index));
        }
    }
}

/// The allowed levels described directly: the indexes of the levels that
/// pass the caps, in order, when some level passes; else the index of the
/// first level of the lowest bitrate; none when there are no levels.
pub open spec fn caps_by_filter(
    levels: Seq<LevelV>,
    cap: CapV,
    player: Option<(u32, u32)>,
    cap_to_player: bool,
) -> Seq<usize> {
    let kept = levels.filter(|l: LevelV| level_allowed(l, cap, player, cap_to_player));
    if kept.len() > 0 {
        kept.map_values(|l: LevelV| l.index)
    } else if levels.len() > 0 {
        seq![levels[first_lowest(levels)].index]
    } else {
        Seq::<usize>::empty()
    }
}

/// The allowed levels that `set_levels` and `set_player_size` record are
/// those of `caps_by_filter`; there are some exactly when there are levels.
pub proof fn law_level_caps(
    levels: Seq<LevelV>,
    cap: CapV,
    player: Option<(u32, u32)>,
    cap_to_player: bool,
)
    ensures
        capped_indexes(levels, cap, player, cap_to_player) == caps_by_filter(
            levels,
            cap,
            player,
            cap_to_player,
        ),
        levels.len() > 0 <==> capped_indexes(levels, cap, player, cap_to_player).len() > 0,
{
    law_passing_is_filter(levels, cap, player, cap_to_player);
    let kept = levels.filter(|l: LevelV| level_allowed(l, cap, player, cap_to_player));
    assert(kept.map_values(|l: LevelV| l.index).len() == kept.len());
    if levels.len() == 0 {
        reveal_with_fuel(Seq::filter, 1);
    }
}

/// The first lowest position holds a level of the lowest bitrate, and every
/// level before it has a higher bitrate.
pub proof fn law_first_lowest(levels: Seq<LevelV>)
    requires
        levels.len() > 0,
    ensures
        0 <= first_lowest(levels) < levels.len(),
        forall|j: int| 0 <= j < levels.len() ==> levels[first_lowest(levels)].bitrate <= #[trigger] levels[j].bitrate,
        forall|j: int| 0 <= j < first_lowest(levels) ==> levels[first_lowest(levels)].bitrate < #[trigger] levels[j].bitrate,
    decreases levels.len(),
{
    if levels.len() > 1 {
        let rest = levels.drop_last();
        law_first_lowest(rest);
        let p = first_lowest(rest);
        let n = levels.len() - 1;
        let f = first_lowest(levels);
        assert(levels[p] == rest[p]);
        assert forall|j: int| 0 <= j < levels.len() implies levels[f].bitrate <= #[trigger] levels[j].bitrate by {
            if j < n {
                assert(levels[j] == rest[j]);
            }
        }
        assert forall|j: int| 0 <= j < f implies levels[f].bitrate < #[trigger] levels[j].bitrate by {
            if j < n {
                assert(levels[j] == rest[j]);
                if f == n {
                    assert(rest[p].bitrate <= rest[j].bitrate);
                }
            }
        }
    }
}

/// The first lowest position is a position of the levels.
proof fn lemma_first_lowest_bounds(levels: Seq<LevelV>)
    requires
        levels.len() > 0,
    ensures
        0 <= first_lowest(levels) < levels.len(),
    decreases levels.len(),
{
    if levels.len() > 1 {
        lemma_first_lowest_bounds(levels.drop_last());
    }
}

/// Each passing index is the index of a level that passes.
proof fn lemma_passing_from_levels(
    levels: Seq<LevelV>,
    cap: CapV,
    player: Option<(u32, u32)>,
    cap_to_player: bool,
    k: int,
)
    requires
        0 <= k < passing_indexes(levels, cap, player, cap_to_player).len(),
    ensures
        exists|j: int|
            0 <= j < levels.len() && #[trigger] levels[j].index == passing_indexes(
                levels,
                cap,
                player,
                cap_to_player,
            )[k] && level_allowed(levels[j], cap, player, cap_to_player),
    decreases levels.len(),
{
    let rest = levels.drop_last();
    let pr = passing_indexes(rest, cap, player, cap_to_player);
    if k < pr.len() {
        lemma_passing_from_levels(rest, cap, player, cap_to_player, k);
        let j = choose|j: int|
            0 <= j < rest.len() && #[trigger] rest[j].index == pr[k] && level_allowed(
                rest[j],
                cap,
                player,
                cap_to_player,
            );
        assert(levels[j] == rest[j]);
    } else {
        assert(levels[levels.len() - 1] == levels.last());
    }
}

/// A switch always goes to an allowed level.
pub proof fn law_switch_allowed(s: AbrState, sig: AbrSignals)
    ensures
        choice(s, sig).1 matches LevelSelection::Switch { to, .. } ==> allowed_in(s, to),
{
    if !sig.cooling_down && s.mode == AbrMode::Auto {
        match s.capped_levels {
            Some(allowed) => {
                if s.current_level < s.levels.len() {
                    lemma_best_allowed(
                        s.levels,
                        allowed,
                        s.levels[s.current_level as int].bitrate,
                        true,
                    );
                }
                match sig.bandwidth {
                    Some(bw) => {
                        lemma_best_allowed(s.levels, allowed, bw.emergency, false);
                        lemma_best_allowed(s.levels, allowed, bw.normal, false);
                    },
                    None => {},
                }
            },
            None => {},
        }
    }
}

/// A switch is applied at once in `Instant` mode and left pending otherwise;
/// without a switch the state stays as it was. Either way only the current and
/// next levels change.
pub proof fn law_switch_state(s: AbrState, sig: AbrSignals)
    ensures
        match choice(s, sig).1 {
            LevelSelection::Switch { from, to, .. } => {
                &&& choice(s, sig).0 == after_switch(s, to)
                &&& choice(s, sig).0.next_level == Some(to)
                &&& from == s.current_level
                &&& (s.switch_mode == QualitySwitchMode::Instant ==> choice(s, sig).0.current_level
                    == to)
                &&& (s.switch_mode != QualitySwitchMode::Instant ==> choice(s, sig).0.current_level
                    == s.current_level)
            },
            LevelSelection::KeepCurrent => choice(s, sig).0 == s,
        },
{
}

/// Each reason goes with its direction: an emergency or a bandwidth decrease
/// goes to a lower level, a bandwidth increase to a higher one, too many dropped
/// frames to a level of lower bitrate, a manual switch to the chosen level.
pub proof fn law_switch_direction(s: AbrState, sig: AbrSignals)
    ensures
        choice(s, sig).1 matches LevelSelection::Switch { to, reason, .. } ==> match reason {
            SwitchReason::Emergency => to < s.current_level,
            SwitchReason::BandwidthDecrease => to < s.current_level,
            SwitchReason::BandwidthIncrease => to > s.current_level && sig.buffer_allows_up,
            SwitchReason::DroppedFrames => s.current_level < s.levels.len() && to < s.levels.len()
                && s.levels[to as int].bitrate < s.levels[s.current_level as int].bitrate,
            SwitchReason::Manual => s.mode == AbrMode::Manual(to) && to != s.current_level,
            SwitchReason::LevelCap => false,
        },
{
    if !sig.cooling_down && s.mode == AbrMode::Auto {
        match s.capped_levels {
            Some(allowed) => {
                if s.current_level < s.levels.len() {
                    lemma_best_allowed(
                        s.levels,
                        allowed,
                        s.levels[s.current_level as int].bitrate,
                        true,
                    );
                }
            },
            None => {},
        }
    }
}

/// No switch is chosen while cooling down.
pub proof fn law_cooldown_keeps(s: AbrState, sig: AbrSignals)
    requires
        sig.cooling_down,
    ensures
        choice(s, sig) == (s, LevelSelection::KeepCurrent),
{
}

/// Confirming a switch makes its target the current level, in every switch mode.
pub proof fn law_confirm_completes_switch(s: AbrState, level: usize)
    ensures
        confirmed(after_switch(s, level)).current_level == level,
        confirmed(after_switch(s, level)).next_level is None,
{
}

/// The ABR controller.
pub struct AbrController {
    mode: AbrMode,
    switch_mode: QualitySwitchMode,
    current_level: usize,
    next_level: Option<usize>,
    player_size: Option<(u32, u32)>,
    level_cap: LevelCapConfig,
    cap_to_player_size: bool,
    capped_levels: Option<Vec<usize>>,
    levels: Vec<Level>,
}

impl AbrController {
    /// The decision state, as plain values.
    pub closed spec fn state(&self) -> AbrState {
        AbrState {
            mode: self.mode,
            switch_mode: self.switch_mode,
            current_level: self.current_level,
            next_level: self.next_level,
            capped_levels: match self.capped_levels {
                Some(v) => Some(v@),
                None => None,
            },
            levels: level_views(self.levels@),
        }
    }

    /// The configured caps, as plain values.
    pub closed spec fn caps(&self) -> CapV {
        CapV {
            max_width: self.level_cap.max_width,
            max_height: self.level_cap.max_height,
            max_bitrate: self.level_cap.max_bitrate,
            hdcp_level: self.level_cap.hdcp_level.deep_view(),
        }
    }

    /// The player's effective size, when known.
    pub closed spec fn player(&self) -> Option<(u32, u32)> {
        self.player_size
    }

    /// Whether levels are capped to the player size.
    pub closed spec fn caps_to_player(&self) -> bool {
        self.cap_to_player_size
    }

    /// The capped levels agree with the levels, caps and player size.
    pub closed spec fn well_formed(&self) -> bool {
        self.capped_levels matches Some(c) ==> c@ == capped_indexes(
            level_views(self.levels@),
            self.caps(),
            self.player_size,
            self.cap_to_player_size,
        )
    }

    /// A controller for the configuration: manual at `start_level` when that is
    /// not negative, else automatic; no levels yet.
    pub fn new(config: &HlsConfig) -> (r: Self)
        ensures
            r.well_formed(),
            r.state().mode == (if config.start_level >= 0 {
                AbrMode::Manual(config.start_level as usize)
            } else {
                AbrMode::Auto
            }),
            r.state().switch_mode == config.quality_switch_mode,
            r.state().current_level == 0,
            r.state().next_level is None,
            r.state().capped_levels is None,
            r.state().levels.len() == 0,
            r.player() is None,
            r.caps() == (CapV {
                max_width: config.level_cap.max_width,
                max_height: config.level_cap.max_height,
                max_bitrate: config.level_cap.max_bitrate,
                hdcp_level: config.level_cap.hdcp_level.deep_view(),
            }),
            r.caps_to_player() == config.cap_level_to_player_size,
    {
        let mode = if config.start_level >= 0 {
            AbrMode::Manual(config.start_level as usize)
        } else {
            AbrMode::Auto
        };
        let level_cap = LevelCapConfig {
            max_width: config.level_cap.max_width,
            max_height: config.level_cap.max_height,
            max_bitrate: config.level_cap.max_bitrate,
            hdcp_level: copy_opt(&config.level_cap.hdcp_level),
        };
        AbrController {
            mode,
            switch_mode: config.quality_switch_mode,
            current_level: 0,
            next_level: None,
            player_size: None,
            level_cap,
            cap_to_player_size: config.cap_level_to_player_size,
            capped_levels: None,
            levels: Vec::new(),
        }
    }

    /// Whether a level passes the caps.
    fn passes(&self, l: &Level) -> (r: bool)
        ensures
            r == level_allowed(l@, self.caps(), self.player_size, self.cap_to_player_size),
    {
        let cap = &self.level_cap;
        if (cap.max_width > 0 || cap.max_height > 0) && !l.fits_resolution(cap.max_width, cap.max_height) {
            return false;
        }
        if self.cap_to_player_size {
            match self.player_size {
                Some((w, h)) => {
                    if !l.fits_resolution(w, h) {
                        return false;
                    }
                },
                None => {},
            }
        }
        if cap.max_bitrate > 0 && l.bitrate > cap.max_bitrate {
            return false;
        }
        let hdcp: Option<&str> = match &cap.hdcp_level {
            Some(s) => Some(s.as_str()),
            None => None,
        };
        l.is_hdcp_compatible(hdcp)
    }

    /// Recomputes the allowed levels from the levels, caps and player size.
    fn update_level_cap(&mut self)
        ensures
            final(self).capped_levels matches Some(c) && c@ == capped_indexes(
                level_views(old(self).levels@),
                old(self).caps(),
                old(self).player_size,
                old(self).cap_to_player_size,
            ),
            final(self).levels == old(self).levels,
            final(self).level_cap == old(self).level_cap,
            final(self).player_size == old(self).player_size,
            final(self).cap_to_player_size == old(self).cap_to_player_size,
            final(self).mode == old(self).mode,
            final(self).switch_mode == old(self).switch_mode,
            final(self).current_level == old(self).current_level,
            final(self).next_level == old(self).next_level,
    {
        let ghost lv = level_views(self.levels@);
        let mut allowed: Vec<usize> = Vec::new();
        let mut i: usize = 0;
        while i < self.levels.len()
            invariant
                lv == level_views(self.levels@),
                i <= lv.len(),
                allowed@ == passing_indexes(lv.take(i as int), self.caps(), self.player_size, self.cap_to_player_size),
            decreases self.levels.len() - i,
        {
            proof {
                assert(lv.take(i + 1).drop_last() =~= lv.take(i as int));
                assert(lv.take(i + 1).last() == self.levels@[i as int]@);
            }
            if self.passes(&self.levels[i]) {
                allowed.push(self.levels[i].index);
            }
            i += 1;
        }
        assert(lv.take(i as int) =~= lv);
        if allowed.len() == 0 && self.levels.len() > 0 {
            let mut p: usize = 0;
            let mut j: usize = 1;
            assert(lv.take(1).len() == 1);
            while j < self.levels.len()
                invariant
                    lv == level_views(self.levels@),
                    1 <= j <= lv.len(),
                    p == first_lowest(lv.take(j as int)),
                    p < j,
                decreases self.levels.len() - j,
            {
                proof {
                    assert(lv.take(j + 1).drop_last() =~= lv.take(j as int));
                    assert(lv.take(j + 1).last() == lv[j as int]);
                    assert(lv.take(j + 1)[p as int] == lv[p as int]);
                    assert(lv[p as int] == self.levels@[p as int]@);
                    assert(lv[j as int] == self.levels@[j as int]@);
                }
                if self.levels[j].bitrate < self.levels[p].bitrate {
                    p = j;
                }
                j += 1;
            }
            assert(lv.take(j as int) =~= lv);
            allowed.push(self.levels[p].index);
            assert(allowed@ =~= seq![lv[first_lowest(lv)].index]);
        }
        self.capped_levels = Some(allowed);
    }

    /// Replaces the levels and recomputes the allowed levels.
    pub fn set_levels(&mut self, levels: Vec<Level>)
        ensures
            final(self).state() == (AbrState {
                levels: level_views(levels@),
                capped_levels: Some(
                    capped_indexes(level_views(levels@), old(self).caps(), old(self).player(), old(self).caps_to_player()),
                ),
                ..old(self).state()
            }),
            final(self).caps() == old(self).caps(),
            final(self).player() == old(self).player(),
            final(self).caps_to_player() == old(self).caps_to_player(),
            final(self).well_formed(),
            final(self).state().capped_levels == Some(
                caps_by_filter(level_views(levels@), old(self).caps(), old(self).player(), old(self).caps_to_player()),
            ),
            levels@.len() > 0 <==> final(self).state().capped_levels->0.len() > 0,
    {
        proof {
            law_level_caps(level_views(levels@), self.caps(), self.player(), self.caps_to_player());
        }
        self.levels = levels;
        self.capped_levels = None;
        self.update_level_cap();
    }

    /// Sets the player's effective size (in device pixels) and recomputes the allowed levels.
    pub fn set_player_size(&mut self, width: u32, height: u32)
        ensures
            final(self).state() == (AbrState {
                capped_levels: Some(
                    capped_indexes(old(self).state().levels, old(self).caps(), Some((width, height)), old(self).caps_to_player()),
                ),
                ..old(self).state()
            }),
            final(self).caps() == old(self).caps(),
            final(self).player() == Some((width, height)),
            final(self).caps_to_player() == old(self).caps_to_player(),
            final(self).well_formed(),
            final(self).state().capped_levels == Some(
                caps_by_filter(old(self).state().levels, old(self).caps(), Some((width, height)), old(self).caps_to_player()),
            ),
            old(self).state().levels.len() > 0 <==> final(self).state().capped_levels->0.len() > 0,
    {
        proof {
            law_level_caps(self.state().levels, self.caps(), Some((width, height)), self.caps_to_player());
        }
        self.player_size = Some((width, height));
        self.capped_levels = None;
        self.update_level_cap();
    }

    /// The allowed levels (none before any capping).
    pub fn allowed_levels(&self) -> (r: &[usize])
        ensures
            r@ == match self.state().capped_levels {
                Some(c) => c,
                None => Seq::empty(),
            },
    {
        match &self.capped_levels {
            Some(v) => v.as_slice(),
            None => {
                let e: &[usize] = &[];
                assert(e@ =~= Seq::<usize>::empty());
                e
            },
        }
    }

    /// Whether a level is allowed.
    pub fn is_level_allowed(&self, level: usize) -> (r: bool)
        ensures
            r == allowed_in(self.state(), level),
    {
        match &self.capped_levels {
            Some(v) => {
                let mut i: usize = 0;
                assert(self.state().capped_levels == Some(v@));
                while i < v.len()
                    invariant
                        self.state().capped_levels == Some(v@),
                        i <= v@.len(),
                        forall|j: int| 0 <= j < i ==> v@[j] != level,
                    decreases v.len() - i,
                {
                    if v[i] == level {
                        assert(v@[i as int] == level);
                        assert(v@.contains(level));
                        return true;
                    }
                    i += 1;
                }
                false
            },
            None => true,
        }
    }

    /// Sets the ABR mode.
    pub fn set_mode(&mut self, mode: AbrMode)
        ensures
            final(self).state() == (AbrState { mode, ..old(self).state() }),
            final(self).well_formed() == old(self).well_formed(),
    {
        self.mode = mode;
    }

    /// The ABR mode.
    pub fn mode(&self) -> (r: AbrMode)
        ensures
            r == self.state().mode,
    {
        self.mode
    }

    /// Sets the quality switch mode.
    pub fn set_switch_mode(&mut self, mode: QualitySwitchMode)
        ensures
            final(self).state() == (AbrState { switch_mode: mode, ..old(self).state() }),
            final(self).well_formed() == old(self).well_formed(),
    {
        self.switch_mode = mode;
    }

    /// The quality switch mode.
    pub fn switch_mode(&self) -> (r: QualitySwitchMode)
        ensures
            r == self.state().switch_mode,
    {
        self.switch_mode
    }

    /// The current level.
    pub fn current_level(&self) -> (r: usize)
        ensures
            r == self.state().current_level,
    {
        self.current_level
    }

    /// Sets the current level; in manual mode the manual level follows it.
    pub fn set_current_level(&mut self, level: usize)
        ensures
            final(self).state() == (AbrState {
                current_level: level,
                mode: match old(self).state().mode {
                    AbrMode::Manual(_) => AbrMode::Manual(level),
                    AbrMode::Auto => AbrMode::Auto,
                },
                ..old(self).state()
            }),
            final(self).well_formed() == old(self).well_formed(),
    {
        self.current_level = level;
        if let AbrMode::Manual(_) = self.mode {
            self.mode = AbrMode::Manual(level);
        }
    }

    /// The level to load next: the pending switch target, else the current level.
    pub fn next_load_level(&self) -> (r: usize)
        ensures
            r == match self.state().next_level {
                Some(n) => n,
                None => self.state().current_level,
            },
    {
        match self.next_level {
            Some(n) => n,
            None => self.current_level,
        }
    }

    /// Applies a switch to `level`.
    fn switch_to_level(&mut self, level: usize)
        ensures
            final(self).state() == after_switch(old(self).state(), level),
            final(self).levels == old(self).levels,
            final(self).capped_levels == old(self).capped_levels,
            final(self).level_cap == old(self).level_cap,
            final(self).player_size == old(self).player_size,
            final(self).cap_to_player_size == old(self).cap_to_player_size,
    {
        match self.switch_mode {
            QualitySwitchMode::Instant => {
                self.current_level = level;
                self.next_level = Some(level);
            },
            _ => {
                self.next_level = Some(level);
            },
        }
    }

    /// Of the allowed positions, the one of highest bitrate within `bound`
    /// (below it when `strict`).
    fn best_level(&self, allowed: &Vec<usize>, bound: u64, strict: bool) -> (r: Option<usize>)
        ensures
            r == best_allowed(level_views(self.levels@), allowed@, bound, strict),
            r matches Some(i) ==> i < self.levels@.len(),
    {
        let ghost lv = level_views(self.levels@);
        let mut best: Option<usize> = None;
        let mut i: usize = 0;
        while i < allowed.len()
            invariant
                lv == level_views(self.levels@),
                i <= allowed@.len(),
                best == best_allowed(lv, allowed@.take(i as int), bound, strict),
                best matches Some(b) ==> b < lv.len(),
            decreases allowed.len() - i,
        {
            proof {
                assert(allowed@.take(i + 1).drop_last() =~= allowed@.take(i as int));
                assert(allowed@.take(i + 1).last() == allowed@[i as int]);
            }
            let idx = allowed[i];
            if idx < self.levels.len() {
                let b = self.levels[idx].bitrate;
                assert(lv[idx as int].bitrate == b);
                let within = if strict {
                    b < bound
                } else {
                    b <= bound
                };
                if within {
                    match best {
                        None => {
                            best = Some(idx);
                        },
                        Some(p) => {
                            assert(lv[p as int].bitrate == self.levels@[p as int].bitrate);
                            if b >= self.levels[p].bitrate {
                                best = Some(idx);
                            }
                        },
                    }
                }
            }
            i += 1;
        }
        assert(allowed@.take(i as int) =~= allowed@);
        best
    }

    /// Chooses the next quality level from what the player measured.
    pub fn select_level(&mut self, signals: AbrSignals) -> (r: LevelSelection)
        ensures
            (final(self).state(), r) == choice(old(self).state(), signals),
            final(self).caps() == old(self).caps(),
            final(self).player() == old(self).player(),
            final(self).caps_to_player() == old(self).caps_to_player(),
            final(self).well_formed() == old(self).well_formed(),
    {
        if signals.cooling_down {
            return LevelSelection::KeepCurrent;
        }
        match self.mode {
            AbrMode::Manual(level) => {
                if level != self.current_level && self.is_level_allowed(level) {
                    let from = self.current_level;
                    self.switch_to_level(level);
                    return LevelSelection::Switch {
                        from,
                        to: level,
                        reason: SwitchReason::Manual,
                    };
                }
                LevelSelection::KeepCurrent
            },
            AbrMode::Auto => self.auto_select_level(signals),
        }
    }

    /// The automatic choice.
    fn auto_select_level(&mut self, signals: AbrSignals) -> (r: LevelSelection)
        requires
            old(self).mode == AbrMode::Auto,
        ensures
            (final(self).state(), r) == auto_choice(old(self).state(), signals),
            final(self).levels == old(self).levels,
            final(self).capped_levels == old(self).capped_levels,
            final(self).level_cap == old(self).level_cap,
            final(self).player_size == old(self).player_size,
            final(self).cap_to_player_size == old(self).cap_to_player_size,
    {
        let allowed = match &self.capped_levels {
            Some(levels) => copy_indexes(levels),
            None => return LevelSelection::KeepCurrent,
        };
        if allowed.len() == 0 {
            return LevelSelection::KeepCurrent;
        }
        let ghost lv = level_views(self.levels@);
        if signals.too_many_dropped && self.current_level < self.levels.len() {
            let cur_bitrate = self.levels[self.current_level].bitrate;
            assert(lv[self.current_level as int].bitrate == cur_bitrate);
            match self.best_level(&allowed, cur_bitrate, true) {
                Some(lower) => {
                    let from = self.current_level;
                    self.switch_to_level(lower);
                    return LevelSelection::Switch {
                        from,
                        to: lower,
                        reason: SwitchReason::DroppedFrames,
                    };
                },
                None => {},
            }
        }
        let bw = match signals.bandwidth {
            Some(b) => b,
            None => return LevelSelection::KeepCurrent,
        };
        if signals.buffer_critical {
            match self.best_level(&allowed, bw.emergency, false) {
                Some(e) => {
                    if e < self.current_level {
                        let from = self.current_level;
                        self.switch_to_level(e);
                        return LevelSelection::Switch {
                            from,
                            to: e,
                            reason: SwitchReason::Emergency,
                        };
                    }
                },
                None => {},
            }
        }
        match self.best_level(&allowed, bw.normal, false) {
            Some(level) => {
                if level == self.current_level {
                    return LevelSelection::KeepCurrent;
                }
                let reason = if level > self.current_level {
                    SwitchReason::BandwidthIncrease
                } else {
                    SwitchReason::BandwidthDecrease
                };
                if level > self.current_level && !signals.buffer_allows_up {
                    return LevelSelection::KeepCurrent;
                }
                let from = self.current_level;
                self.switch_to_level(level);
                LevelSelection::Switch { from, to: level, reason }
            },
            None => LevelSelection::KeepCurrent,
        }
    }

    /// Completes a pending switch: the switch target becomes the current level.
    pub fn confirm_switch(&mut self)
        ensures
            final(self).state() == confirmed(old(self).state()),
            final(self).well_formed() == old(self).well_formed(),
    {
        if let Some(next) = self.next_level.take() {
            self.current_level = next;
        }
    }

    /// Forgets any pending switch.
    pub fn reset(&mut self)
        ensures
            final(self).state() == (AbrState { next_level: None, ..old(self).state() }),
            final(self).well_formed() == old(self).well_formed(),
    {
        self.next_level = None;
    }
}

/// A copy of a list of indexes.
fn copy_indexes(v: &Vec<usize>) -> (r: Vec<usize>)
    ensures
        r@ == v@,
{
    let mut out: Vec<usize> = Vec::new();
    let mut i: usize = 0;
    while i < v.len()
        invariant
            i <= v@.len(),
            out@ == v@.take(i as int),
        decreases v.len() - i,
    {
        out.push(v[i]);
        i += 1;
        assert(out@ =~= v@.take(i as int));
    }
    assert(v@.take(i as int) =~= v@);
    out
}

} // verus!

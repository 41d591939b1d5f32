//! Keeping a goal loop within its budget.
use crate::checks::GoalBudget;
use crate::clock;
use crate::clock::clamped_secs;
use crate::text;
use crate::text::decimal_text;
use vstd::hash_map::StringHashMap;
use vstd::prelude::*;

verus! {

/// What one turn of a sub-agent used up.
#[derive(Debug, Clone, Copy, PartialEq, Eq, Structural)]
pub struct UsageDelta {
    pub tokens: u64,
    pub usd_cents: u32,
}

impl Default for UsageDelta {
    fn default() -> (delta: Self)
        ensures
            delta.tokens == 0,
            delta.usd_cents == 0,
    {
        UsageDelta { tokens: 0, usd_cents: 0 }
    }
}

/// Why the loop stopped on budget.
#[derive(Debug, PartialEq, Eq)]
pub enum BudgetExceeded {
    Tokens { used: u64, cap: u64 },
    Dollars { used_cents: u32, cap_cents: u32 },
    Wall { elapsed_secs: u32, cap_secs: u32 },
    Retries { item_id: String, tries: u8, cap: u8 },
}

/// The model of a [`BudgetExceeded`].
pub enum BudgetExceededView {
    Tokens { used: u64, cap: u64 },
    Dollars { used_cents: u32, cap_cents: u32 },
    Wall { elapsed_secs: u32, cap_secs: u32 },
    Retries { item_id: Seq<char>, tries: u8, cap: u8 },
}

impl View for BudgetExceeded {
    type V = BudgetExceededView;

    open spec fn view(&self) -> BudgetExceededView {
        match *self {
            BudgetExceeded::Tokens { used, cap } => BudgetExceededView::Tokens { used, cap },
            BudgetExceeded::Dollars { used_cents, cap_cents } => BudgetExceededView::Dollars {
                used_cents,
                cap_cents,
            },
            BudgetExceeded::Wall { elapsed_secs, cap_secs } => BudgetExceededView::Wall {
                elapsed_secs,
                cap_secs,
            },
            BudgetExceeded::Retries { item_id, tries, cap } => BudgetExceededView::Retries {
                item_id: item_id@,
                tries,
                cap,
            },
        }
    }
}

impl DeepView for BudgetExceeded {
    type V = BudgetExceededView;

    open spec fn deep_view(&self) -> BudgetExceededView {
        self@
    }
}

impl Clone for BudgetExceeded {
    fn clone(&self) -> (copy: Self)
        ensures
            copy@ == self@,
    {
        match self {
            BudgetExceeded::Tokens { used, cap } => BudgetExceeded::Tokens {
                used: *used,
                cap: *cap,
            },
            BudgetExceeded::Dollars { used_cents, cap_cents } => BudgetExceeded::Dollars {
                used_cents: *used_cents,
                cap_cents: *cap_cents,
            },
            BudgetExceeded::Wall { elapsed_secs, cap_secs } => BudgetExceeded::Wall {
                elapsed_secs: *elapsed_secs,
                cap_secs: *cap_secs,
            },
            BudgetExceeded::Retries { item_id, tries, cap } => BudgetExceeded::Retries {
                item_id: item_id.clone(),
                tries: *tries,
                cap: *cap,
            },
        }
    }
}

impl BudgetExceededView {
    /// The reason in words.
    pub open spec fn message(self) -> Seq<char> {
        match self {
            BudgetExceededView::Tokens { used, cap } => "token budget exhausted ("@ + text::decimal(
                used as nat,
            ) + " >= "@ + text::decimal(cap as nat) + ")"@,
            BudgetExceededView::Dollars { used_cents, cap_cents } => "dollar budget exhausted ("@
                + text::decimal(used_cents as nat) + "¢ >= "@ + text::decimal(cap_cents as nat)
                + "¢)"@,
            BudgetExceededView::Wall { elapsed_secs, cap_secs } => "wall-clock budget exhausted ("@
                + text::decimal(elapsed_secs as nat) + "s >= "@ + text::decimal(cap_secs as nat)
                + "s)"@,
            BudgetExceededView::Retries { item_id, tries, cap } => "retry cap exhausted for item `"@
                + item_id + "` ("@ + text::decimal(tries as nat) + "/"@ + text::decimal(
                cap as nat,
            ) + ")"@,
        }
    }
}

impl BudgetExceeded {
    /// The reason in words.
    pub fn message(&self) -> (message: String)
        ensures
            message@ == self@.message(),
    {
        match self {
            BudgetExceeded::Tokens { used, cap } => {
                let mut m = "token budget exhausted (".to_string();
                m.append(decimal_text(*used).as_str());
                m.append(" >= ");
                m.append(decimal_text(*cap).as_str());
                m.append(")");
                m
            },
            BudgetExceeded::Dollars { used_cents, cap_cents } => {
                let mut m = "dollar budget exhausted (".to_string();
                m.append(decimal_text(*used_cents as u64).as_str());
                m.append("¢ >= ");
                m.append(decimal_text(*cap_cents as u64).as_str());
                m.append("¢)");
                m
            },
            BudgetExceeded::Wall { elapsed_secs, cap_secs } => {
                let mut m = "wall-clock budget exhausted (".to_string();
                m.append(decimal_text(*elapsed_secs as u64).as_str());
                m.append("s >= ");
                m.append(decimal_text(*cap_secs as u64).as_str());
                m.append("s)");
                m
            },
            BudgetExceeded::Retries { item_id, tries, cap } => {
                let mut m = "retry cap exhausted for item `".to_string();
                m.append(item_id.as_str());
                m.append("` (");
                m.append(decimal_text(*tries as u64).as_str());
                m.append("/");
                m.append(decimal_text(*cap as u64).as_str());
                m.append(")");
                m
            },
        }
    }
}

/// The model of a [`BudgetTracker`]: everything but the clock.
pub struct BudgetView {
    pub caps: GoalBudget,
    pub tokens_used: u64,
    pub cents_used: u32,
    /// How often each item was retried; items that are not in the map never
    /// were.
    pub retries: Map<Seq<char>, u8>,
}

impl BudgetView {
    /// Nothing used yet.
    pub open spec fn fresh(caps: GoalBudget) -> Self {
        BudgetView { caps, tokens_used: 0, cents_used: 0, retries: Map::empty() }
    }

    /// After one more turn. Counters stop at the top of their range.
    pub open spec fn recorded(self, delta: UsageDelta) -> Self {
        BudgetView {
            tokens_used: if self.tokens_used + delta.tokens > u64::MAX {
                u64::MAX
            } else {
                (self.tokens_used + delta.tokens) as u64
            },
            cents_used: if self.cents_used + delta.usd_cents > u32::MAX {
                u32::MAX
            } else {
                (self.cents_used + delta.usd_cents) as u32
            },
            ..self
        }
    }

    /// How often an item was retried.
    pub open spec fn retry_count(self, item_id: Seq<char>) -> u8 {
        if self.retries.contains_key(item_id) {
            self.retries[item_id]
        } else {
            0
        }
    }

    /// One more than the retries of an item, or the top of the counter's range.
    pub open spec fn next_retry(self, item_id: Seq<char>) -> u8 {
        if self.retry_count(item_id) == u8::MAX {
            u8::MAX
        } else {
            (self.retry_count(item_id) + 1) as u8
        }
    }

    /// The item has not been retried as often as the cap allows.
    pub open spec fn may_retry(self, item_id: Seq<char>) -> bool {
        self.retry_count(item_id) < self.caps.retries_per_item
    }

    /// After one more retry of an item.
    pub open spec fn retried(self, item_id: Seq<char>) -> Self {
        BudgetView { retries: self.retries.insert(item_id, self.next_retry(item_id)), ..self }
    }

    /// The reason for which an item may not be retried.
    pub open spec fn retries_exceeded(self, item_id: Seq<char>) -> BudgetExceededView {
        BudgetExceededView::Retries {
            item_id,
            tries: self.next_retry(item_id),
            cap: self.caps.retries_per_item,
        }
    }

    pub open spec fn tokens_exhausted(self) -> bool {
        self.caps.tokens is Some && self.tokens_used >= self.caps.tokens->0
    }

    pub open spec fn dollars_exhausted(self) -> bool {
        self.caps.usd_cents is Some && self.cents_used >= self.caps.usd_cents->0
    }

    pub open spec fn wall_exhausted(self, elapsed_secs: u32) -> bool {
        self.caps.wall_secs is Some && elapsed_secs >= self.caps.wall_secs->0
    }

    /// The first cap that is reached once `elapsed_secs` have passed: tokens
    /// before dollars before time.
    pub open spec fn exceeded_at(self, elapsed_secs: u32) -> Option<BudgetExceededView> {
        if self.tokens_exhausted() {
            Some(
                BudgetExceededView::Tokens { used: self.tokens_used, cap: self.caps.tokens->0 },
            )
        } else if self.dollars_exhausted() {
            Some(
                BudgetExceededView::Dollars {
                    used_cents: self.cents_used,
                    cap_cents: self.caps.usd_cents->0,
                },
            )
        } else if self.wall_exhausted(elapsed_secs) {
            Some(BudgetExceededView::Wall { elapsed_secs, cap_secs: self.caps.wall_secs->0 })
        } else {
            None
        }
    }
}

/// Counts what a goal loop uses up.
pub struct BudgetTracker {
    caps: GoalBudget,
    tokens_used: u64,
    cents_used: u32,
    started_at: std::time::Instant,
    retries_by_item: StringHashMap<u8>,
}

impl View for BudgetTracker {
    type V = BudgetView;

    closed spec fn view(&self) -> BudgetView {
        BudgetView {
            caps: self.caps,
            tokens_used: self.tokens_used,
            cents_used: self.cents_used,
            retries: self.retries_by_item@,
        }
    }
}

impl BudgetTracker {
    /// A tracker with nothing used, whose clock starts now.
    pub fn new(caps: GoalBudget) -> (tracker: Self)
        ensures
            tracker@ == BudgetView::fresh(caps),
            call_ensures(std::time::Instant::now, (), tracker.start()),
    {
        BudgetTracker {
            caps,
            tokens_used: 0,
            cents_used: 0,
            started_at: std::time::Instant::now(),
            retries_by_item: StringHashMap::new(),
        }
    }

    /// Counts one turn.
    pub fn record(&mut self, delta: UsageDelta)
        ensures
            final(self)@ == old(self)@.recorded(delta),
            final(self).start() == old(self).start(),
    {
        self.tokens_used = self.tokens_used.saturating_add(delta.tokens);
        self.cents_used = self.cents_used.saturating_add(delta.usd_cents);
    }

    /// Counts one more retry of an item. Returns the new count, or
    /// [`BudgetExceeded::Retries`] if the item had already been retried as often
    /// as the cap allows.
    pub fn note_retry(&mut self, item_id: &str) -> (noted: Result<u8, BudgetExceeded>)
        ensures
            final(self)@ == old(self)@.retried(item_id@),
            final(self).start() == old(self).start(),
            match noted {
                Ok(count) => old(self)@.may_retry(item_id@) && count == old(self)@.next_retry(
                    item_id@,
                ),
                Err(reason) => !old(self)@.may_retry(item_id@) && reason@
                    == old(self)@.retries_exceeded(item_id@),
            },
    {
        let cap: u8 = self.caps.retries_per_item;
        let before: u8 = self.retries(item_id);
        let count: u8 = before.saturating_add(1);
        self.retries_by_item.insert(item_id.to_string(), count);
        if before >= cap {
            Err(BudgetExceeded::Retries { item_id: item_id.to_string(), tries: count, cap })
        } else {
            Ok(count)
        }
    }

    /// How often an item was retried.
    pub fn retries(&self, item_id: &str) -> (count: u8)
        ensures
            count == self@.retry_count(item_id@),
    {
        match self.retries_by_item.get(item_id) {
            Some(count) => *count,
            None => 0,
        }
    }

    pub fn tokens_used(&self) -> (tokens: u64)
        ensures
            tokens == self@.tokens_used,
    {
        self.tokens_used
    }

    pub fn cents_used(&self) -> (cents: u32)
        ensures
            cents == self@.cents_used,
    {
        self.cents_used
    }

    /// Where the start of the tracker's clock lies, in nanoseconds on the scale
    /// of the monotonic clock.
    pub open spec fn started_at(&self) -> int {
        clock::instant_nanos(self.start())
    }

    /// The reading of the monotonic clock at which the tracker's clock started.
    pub closed spec fn start(&self) -> std::time::Instant {
        self.started_at
    }

    /// The whole seconds since the tracker's clock started, at most `u32::MAX`.
    /// What the monotonic clock reads now decides.
    pub fn elapsed_secs(&self) -> (secs: u32)
        ensures
            clock::secs_told_since(self.start(), secs),
    {
        clamped_secs(self.started_at.elapsed())
    }

    pub fn caps(&self) -> (caps: GoalBudget)
        ensures
            caps == self@.caps,
    {
        self.caps
    }

    /// The first cap that is reached by now, if any. Retries per item are told
    /// by [`note_retry`](Self::note_retry) instead.
    pub fn check(&self) -> (reason: Option<BudgetExceeded>)
        ensures
            exists|elapsed_secs: u32|
                #[trigger] clock::secs_told_since(self.start(), elapsed_secs)
                    && reason.deep_view() == self@.exceeded_at(elapsed_secs),
    {
        self.check_at(self.elapsed_secs())
    }

    /// The first cap that is reached once `elapsed_secs` have passed, if any.
    pub fn check_at(&self, elapsed_secs: u32) -> (reason: Option<BudgetExceeded>)
        ensures
            reason.deep_view() == self@.exceeded_at(elapsed_secs),
    {
        if let Some(cap) = self.caps.tokens {
            if self.tokens_used >= cap {
                return Some(BudgetExceeded::Tokens { used: self.tokens_used, cap });
            }
        }
        if let Some(cap) = self.caps.usd_cents {
            if self.cents_used >= cap {
                return Some(
                    BudgetExceeded::Dollars { used_cents: self.cents_used, cap_cents: cap },
                );
            }
        }
        if let Some(cap) = self.caps.wall_secs {
            if elapsed_secs >= cap {
                return Some(BudgetExceeded::Wall { elapsed_secs, cap_secs: cap });
            }
        }
        None
    }

    /// Moves the start of the clock back, to what `Instant::checked_sub` gives if
    /// it gives anything. What was counted stays.
    pub fn rewind_started_at(&mut self, by: std::time::Duration)
        ensures
            final(self)@ == old(self)@,
            exists|earlier: Option<std::time::Instant>|
                #[trigger] call_ensures(
                    std::time::Instant::checked_sub,
                    (&old(self).start(), by),
                    earlier,
                ) && final(self).start() == (match earlier {
                    Some(at) => at,
                    None => old(self).start(),
                }),
            final(self).started_at() == old(self).started_at() - clock::span_nanos(by)
                || final(self).started_at() == old(self).started_at(),
    {
        if let Some(earlier) = self.started_at.checked_sub(by) {
            self.started_at = earlier;
        }
    }
}

/// A budget is exceeded exactly if one of its caps is reached, and the reason
/// names the first such cap: tokens, then dollars, then time.
pub proof fn budget_check_names_the_first_cap(budget: BudgetView, elapsed_secs: u32)
    ensures
        budget.exceeded_at(elapsed_secs) is None <==> !budget.tokens_exhausted()
            && !budget.dollars_exhausted() && !budget.wall_exhausted(elapsed_secs),
        budget.exceeded_at(elapsed_secs) matches Some(BudgetExceededView::Tokens { .. })
            <==> budget.tokens_exhausted(),
        budget.exceeded_at(elapsed_secs) matches Some(BudgetExceededView::Dollars { .. })
            <==> budget.dollars_exhausted() && !budget.tokens_exhausted(),
        budget.exceeded_at(elapsed_secs) matches Some(BudgetExceededView::Wall { .. })
            <==> budget.wall_exhausted(elapsed_secs) && !budget.tokens_exhausted()
            && !budget.dollars_exhausted(),
{
}

/// A budget that is exceeded stays exceeded, whatever is used up or retried
/// later and however much time passes.
pub proof fn exceeded_budgets_stay_exceeded(
    budget: BudgetView,
    delta: UsageDelta,
    item_id: Seq<char>,
    elapsed_secs: u32,
    later_secs: u32,
)
    requires
        elapsed_secs <= later_secs,
        budget.exceeded_at(elapsed_secs) is Some,
    ensures
        budget.exceeded_at(later_secs) is Some,
        budget.recorded(delta).exceeded_at(later_secs) is Some,
        budget.retried(item_id).exceeded_at(later_secs) is Some,
{
}

/// What is used up never shrinks.
pub proof fn usage_never_shrinks(budget: BudgetView, delta: UsageDelta)
    ensures
        budget.recorded(delta).tokens_used >= budget.tokens_used,
        budget.recorded(delta).cents_used >= budget.cents_used,
        budget.recorded(delta).caps == budget.caps,
        budget.recorded(delta).retries == budget.retries,
{
}

/// The budget after `times` retries of one item.
pub open spec fn retried_times(budget: BudgetView, item_id: Seq<char>, times: nat) -> BudgetView
    decreases times,
{
    if times == 0 {
        budget
    } else {
        retried_times(budget, item_id, (times - 1) as nat).retried(item_id)
    }
}

/// Of an item that was never retried, exactly as many retries are allowed as the
/// cap says. Its count is the number of its retries, up to what a `u8` holds; and
/// retrying one item leaves every other item's count alone.
pub proof fn retries_are_capped_per_item(
    budget: BudgetView,
    item_id: Seq<char>,
    other: Seq<char>,
    times: nat,
)
    requires
        budget.retry_count(item_id) == 0,
        other != item_id,
    ensures
        retried_times(budget, item_id, times).may_retry(item_id) <==> times
            < budget.caps.retries_per_item,
        retried_times(budget, item_id, times).retry_count(item_id) == (if times > u8::MAX {
            u8::MAX as nat
        } else {
            times
        }),
        retried_times(budget, item_id, times).retry_count(other) == budget.retry_count(other),
{
    lemma_retried_times(budget, item_id, other, times);
}

proof fn lemma_retried_times(budget: BudgetView, item_id: Seq<char>, other: Seq<char>, times: nat)
    requires
        budget.retry_count(item_id) == 0,
        other != item_id,
    ensures
        retried_times(budget, item_id, times).caps == budget.caps,
        retried_times(budget, item_id, times).retry_count(item_id) == (if times > u8::MAX {
            u8::MAX as nat
        } else {
            times
        }),
        retried_times(budget, item_id, times).retry_count(other) == budget.retry_count(other),
    decreases times,
{
    if times > 0 {
        lemma_retried_times(budget, item_id, other, (times - 1) as nat);
    }
}

} // verus!

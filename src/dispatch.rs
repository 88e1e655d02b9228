use vstd::prelude::*;

verus! {

/// The result of one delivery attempt.
#[derive(Clone, Debug)]
pub enum DeliveryOutcome {
    /// The callback accepted the event.
    Success,
    /// The callback could not be reached or refused the event; the reason
    /// is kept (`"timeout"` where the delivery ran out of time).
    Failure(String),
}

impl DeliveryOutcome {
    /// Whether this outcome is a success.
    pub fn is_success(&self) -> (r: bool)
        ensures
            r == (*self is Success),
    {
        match self {
            DeliveryOutcome::Success => true,
            DeliveryOutcome::Failure(_) => false,
        }
    }

    fn copied(&self) -> (r: DeliveryOutcome)
        ensures
            r == *self,
    {
        match self {
            DeliveryOutcome::Success => DeliveryOutcome::Success,
            DeliveryOutcome::Failure(reason) => DeliveryOutcome::Failure(reason.clone()),
        }
    }
}

/// The outcome of delivering an event to one callback URL.
#[derive(Clone, Debug)]
pub struct Delivery {
    pub url: String,
    pub outcome: DeliveryOutcome,
}

/// The per-URL outcomes of one publication, one entry per subscriber.
#[derive(Clone, Debug)]
pub struct DeliveryReport {
    pub entries: Vec<Delivery>,
}

/// The capability that carries an event to a callback URL.
///
/// An implementation reports every non-success response or transport error
/// as a `Failure` with its reason, does not retry, and bounds each attempt
/// by a timeout, reported as `Failure("timeout")`.
pub trait Notifier {
    fn deliver(&mut self, url: &str, event: &str) -> DeliveryOutcome;
}

impl DeliveryReport {
    /// The URLs of the entries, in order.
    pub open spec fn targets(self) -> Seq<Seq<char>> {
        self.entries@.map_values(|d: Delivery| d.url@)
    }

    /// The report that pairs each URL with the outcome at the same position.
    pub fn from_outcomes(urls: &Vec<String>, outcomes: &Vec<DeliveryOutcome>) -> (r: DeliveryReport)
        requires
            urls@.len() == outcomes@.len(),
        ensures
            r.entries@.len() == urls@.len(),
            forall|i: int|
                0 <= i < urls@.len() ==> (#[trigger] r.entries@[i]).url == urls@[i]
                    && r.entries@[i].outcome == outcomes@[i],
    {
        let mut entries: Vec<Delivery> = Vec::new();
        let mut i: usize = 0;
        while i < urls.len()
            invariant
                i <= urls@.len(),
                urls@.len() == outcomes@.len(),
                entries@.len() == i,
                forall|j: int|
                    0 <= j < i ==> (#[trigger] entries@[j]).url == urls@[j] && entries@[j].outcome
                        == outcomes@[j],
            decreases urls@.len() - i,
        {
            entries.push(Delivery { url: urls[i].clone(), outcome: outcomes[i].copied() });
            i = i + 1;
        }
        DeliveryReport { entries }
    }

    /// The number of entries.
    pub fn len(&self) -> (r: usize)
        ensures
            r == self.entries@.len(),
    {
        self.entries.len()
    }

    /// Whether the report has no entry.
    pub fn is_empty(&self) -> (r: bool)
        ensures
            r == (self.entries@.len() == 0),
    {
        self.entries.len() == 0
    }
}

} // verus!

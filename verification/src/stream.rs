//! The stream of products: one cycle for each feed of a source, one registry
//! shared by them all, and one queue from which the consumer takes.
//!
//! The stream decides and its owner acts. The owner runs a ticker and a
//! transport for each feed, reports what happens to [`Stream::handle`], and
//! does what the returned action asks; whatever a feed brings is unpacked here
//! and queued. The consumer takes products with [`Stream::next`].

use vstd::prelude::*;
use std::collections::VecDeque;
use std::marker::PhantomData;
use crate::archive::{listing_of, zip_readable};
use crate::cycle::{transition, Action, Event, FeedDescriptor, FetchCycle};
use crate::error::Error;
use crate::product::Product;
use crate::state::{are_new_products, registry_after, StreamState};

verus! {

/// The number of products that wait in the delivery buffer at most. What a
/// feed brings beyond it is held back, in order, until the consumer makes
/// room; nothing is dropped.
pub const CAPACITY: usize = 50;

/// The name by which the stream's own HTTP client makes itself known.
pub const USER_AGENT: &'static str = "https://github.com/willglynn/emwin";

/// One remote archive that is fetched again and again.
pub trait Fetchable {
    /// Where the feed is and how often it is fetched.
    spec fn feed() -> FeedDescriptor;

    /// The feed's descriptor.
    fn descriptor() -> (feed: FeedDescriptor)
        ensures
            feed == Self::feed(),
    ;
}

/// A source of EMWIN TG data: the feeds that together make it up, in the
/// order in which they take turns when several are ready at once.
pub trait Source {
    /// The feeds of the source, in their order.
    spec fn feed_table() -> Seq<FeedDescriptor>;

    /// The descriptors of the feeds, in the table's order.
    fn feeds() -> (feeds: Vec<FeedDescriptor>)
        ensures
            feeds@ == Self::feed_table(),
    ;
}

/// The text products of the last two minutes, republished all the time.
pub struct Text2Min;

/// The text products of the last six minutes.
pub struct Text6Min;

/// The text products of the last twenty minutes.
pub struct Text20Min;

/// The text products of the last three hours, republished hourly.
pub struct Text3Hour;

/// The image products of the last fifteen minutes.
pub struct Image15Min;

/// The image products of the last three hours, republished hourly.
pub struct Image3Hour;

impl Fetchable for Text2Min {
    open spec fn feed() -> FeedDescriptor {
        FeedDescriptor {
            url: "https://tgftp.nws.noaa.gov/SL.us008001/CU.EMWIN/DF.xt/DC.gsatR/OPS/txtmin02.zip",
            interval_secs: 47,
            max_ticks: None,
        }
    }

    fn descriptor() -> FeedDescriptor {
        FeedDescriptor {
            url: "https://tgftp.nws.noaa.gov/SL.us008001/CU.EMWIN/DF.xt/DC.gsatR/OPS/txtmin02.zip",
            interval_secs: 47,
            max_ticks: None,
        }
    }
}

impl Fetchable for Text6Min {
    open spec fn feed() -> FeedDescriptor {
        FeedDescriptor {
            url: "https://tgftp.nws.noaa.gov/SL.us008001/CU.EMWIN/DF.xt/DC.gsatR/OPS/txtmin06.zip",
            interval_secs: 360,
            max_ticks: None,
        }
    }

    fn descriptor() -> FeedDescriptor {
        FeedDescriptor {
            url: "https://tgftp.nws.noaa.gov/SL.us008001/CU.EMWIN/DF.xt/DC.gsatR/OPS/txtmin06.zip",
            interval_secs: 360,
            max_ticks: None,
        }
    }
}

impl Fetchable for Text20Min {
    open spec fn feed() -> FeedDescriptor {
        FeedDescriptor {
            url: "https://tgftp.nws.noaa.gov/SL.us008001/CU.EMWIN/DF.xt/DC.gsatR/OPS/txtmin20.zip",
            interval_secs: 1200,
            max_ticks: None,
        }
    }

    fn descriptor() -> FeedDescriptor {
        FeedDescriptor {
            url: "https://tgftp.nws.noaa.gov/SL.us008001/CU.EMWIN/DF.xt/DC.gsatR/OPS/txtmin20.zip",
            interval_secs: 1200,
            max_ticks: None,
        }
    }
}

impl Fetchable for Text3Hour {
    open spec fn feed() -> FeedDescriptor {
        FeedDescriptor {
            url: "https://tgftp.nws.noaa.gov/SL.us008001/CU.EMWIN/DF.xt/DC.gsatR/OPS/txthrs03.zip",
            interval_secs: 3600,
            max_ticks: None,
        }
    }

    fn descriptor() -> FeedDescriptor {
        FeedDescriptor {
            url: "https://tgftp.nws.noaa.gov/SL.us008001/CU.EMWIN/DF.xt/DC.gsatR/OPS/txthrs03.zip",
            interval_secs: 3600,
            max_ticks: None,
        }
    }
}

impl Fetchable for Image15Min {
    open spec fn feed() -> FeedDescriptor {
        FeedDescriptor {
            url: "https://tgftp.nws.noaa.gov/SL.us008001/CU.EMWIN/DF.xt/DC.gsatR/OPS/imgmin15.zip",
            interval_secs: 352,
            max_ticks: None,
        }
    }

    fn descriptor() -> FeedDescriptor {
        FeedDescriptor {
            url: "https://tgftp.nws.noaa.gov/SL.us008001/CU.EMWIN/DF.xt/DC.gsatR/OPS/imgmin15.zip",
            interval_secs: 352,
            max_ticks: None,
        }
    }
}

impl Fetchable for Image3Hour {
    open spec fn feed() -> FeedDescriptor {
        FeedDescriptor {
            url: "https://tgftp.nws.noaa.gov/SL.us008001/CU.EMWIN/DF.xt/DC.gsatR/OPS/imghrs03.zip",
            interval_secs: 3600,
            max_ticks: None,
        }
    }

    fn descriptor() -> FeedDescriptor {
        FeedDescriptor {
            url: "https://tgftp.nws.noaa.gov/SL.us008001/CU.EMWIN/DF.xt/DC.gsatR/OPS/imghrs03.zip",
            interval_secs: 3600,
            max_ticks: None,
        }
    }
}

/// The feed of text products from EMWIN TG: four archives of the operational
/// telecommunications gateway path, the freshest first.
#[derive(Debug)]
pub struct TextSource;

/// The feed of image products from EMWIN TG.
#[derive(Debug)]
pub struct ImageSource;

impl Source for TextSource {
    open spec fn feed_table() -> Seq<FeedDescriptor> {
        seq![Text2Min::feed(), Text6Min::feed(), Text20Min::feed(), Text3Hour::feed()]
    }

    fn feeds() -> Vec<FeedDescriptor> {
        vec![
            Text2Min::descriptor(),
            Text6Min::descriptor(),
            Text20Min::descriptor(),
            Text3Hour::descriptor(),
        ]
    }
}

impl Source for ImageSource {
    open spec fn feed_table() -> Seq<FeedDescriptor> {
        seq![Image15Min::feed(), Image3Hour::feed()]
    }

    fn feeds() -> Vec<FeedDescriptor> {
        vec![Image15Min::descriptor(), Image3Hour::descriptor()]
    }
}

/// Which of several sources is served: the first that is ready, in the order
/// in which they stand.
pub open spec fn is_first_ready(ready: Seq<bool>, pick: Option<int>) -> bool {
    match pick {
        Some(i) => 0 <= i < ready.len() && ready[i] && forall|j: int| 0 <= j < i ==> !ready[j],
        None => forall|j: int| 0 <= j < ready.len() ==> !ready[j],
    }
}

/// The source to serve next, where `ready` says of each whether it has
/// something to hand on.
pub fn first_ready(ready: &Vec<bool>) -> (pick: Option<usize>)
    ensures
        is_first_ready(
            ready@,
            match pick {
                Some(i) => Some(i as int),
                None => None,
            },
        ),
{
    let mut i: usize = 0;
    while i < ready.len()
        invariant
            i <= ready.len(),
            forall|j: int| 0 <= j < i ==> !ready@[j],
        decreases ready.len() - i,
    {
        if ready[i] {
            return Some(i);
        }
        i += 1;
    }
    None
}

/// A stream of products from the feeds of the source `S`.
///
/// The stream goes on until it is cancelled, whatever errors it reports. The
/// products of one batch come in the order of their names; between batches
/// there is no order but that of arrival.
#[derive(Debug)]
pub struct Stream<S: Source> {
    /// The cycle of each feed, in the order of the source's table.
    pub cycles: Vec<FetchCycle>,
    /// The names that were delivered already.
    pub state: StreamState,
    /// What the consumer takes from.
    pub output_buffer: VecDeque<Result<Product, Error>>,
    /// What waits for room in the buffer.
    pub held: VecDeque<Result<Product, Error>>,
    /// Whether the stream was cancelled.
    pub cancelled: bool,
    /// The source whose feeds these are.
    pub source: PhantomData<S>,
}

/// A `Stream` of text products.
pub type TextStream = Stream<TextSource>;

/// A `Stream` of image products.
pub type ImageStream = Stream<ImageSource>;

/// The cycles of feeds that have fetched nothing yet.
pub open spec fn are_fresh_cycles(cycles: Seq<FetchCycle>, feeds: Seq<FeedDescriptor>) -> bool {
    &&& cycles.len() == feeds.len()
    &&& forall|i: int|
        0 <= i < feeds.len() ==> {
            &&& (#[trigger] cycles[i]).validators.etag is None
            &&& cycles[i].validators.last_modified is None
            &&& cycles[i].ticks_left == feeds[i].max_ticks
            &&& cycles[i].phase == crate::cycle::phase_after_tick(feeds[i].max_ticks)
        }
}

impl<S: Source> Default for Stream<S> {
    /// A stream as [`Stream::new`] starts it.
    fn default() -> (stream: Self)
        ensures
            stream.wf(),
            !stream.cancelled,
            stream.queue() == Seq::<Result<Product, Error>>::empty(),
            stream.state@ == Map::<Seq<char>, u128>::empty(),
            are_fresh_cycles(stream.cycles@, S::feed_table()),
    {
        Stream::new()
    }
}

impl<S: Source> Stream<S> {
    /// Everything that is due to the consumer, in the order of delivery.
    pub open spec fn queue(&self) -> Seq<Result<Product, Error>> {
        self.output_buffer@ + self.held@
    }

    /// The buffer keeps within its capacity, nothing is held back while the
    /// buffer has room, every cycle is well formed, and a cancelled stream
    /// holds nothing.
    pub open spec fn wf(&self) -> bool {
        &&& self.output_buffer@.len() <= CAPACITY
        &&& self.held@.len() > 0 ==> self.output_buffer@.len() == CAPACITY
        &&& forall|i: int| 0 <= i < self.cycles@.len() ==> (#[trigger] self.cycles@[i]).wf()
        &&& self.cancelled ==> self.queue().len() == 0
    }

    /// Start a stream: a cycle for each feed of the source, an empty registry
    /// and nothing queued.
    pub fn new() -> (stream: Self)
        ensures
            stream.wf(),
            !stream.cancelled,
            stream.queue() == Seq::<Result<Product, Error>>::empty(),
            stream.state@ == Map::<Seq<char>, u128>::empty(),
            are_fresh_cycles(stream.cycles@, S::feed_table()),
    {
        let feeds = S::feeds();
        let mut cycles: Vec<FetchCycle> = Vec::new();
        let mut i: usize = 0;
        while i < feeds.len()
            invariant
                i <= feeds.len(),
                feeds@ == S::feed_table(),
                cycles@.len() == i,
                forall|k: int| 0 <= k < i ==> (#[trigger] cycles@[k]).wf(),
                are_fresh_cycles(cycles@, feeds@.take(i as int)),
            decreases feeds.len() - i,
        {
            cycles.push(FetchCycle::new(&feeds[i]));
            i += 1;
        }
        assert(feeds@.take(i as int) =~= feeds@);
        let stream = Stream {
            cycles,
            state: StreamState::new(),
            output_buffer: VecDeque::with_capacity(CAPACITY),
            held: VecDeque::new(),
            cancelled: false,
            source: PhantomData,
        };
        assert(stream.queue() =~= Seq::<Result<Product, Error>>::empty());
        stream
    }

    /// Whether the stream is well formed, which every stream is that was made
    /// by [`Stream::new`] and changed by its methods alone.
    pub fn is_wf(&self) -> (ok: bool)
        ensures
            ok == self.wf(),
    {
        if self.output_buffer.len() > CAPACITY {
            return false;
        }
        if self.held.len() > 0 && self.output_buffer.len() != CAPACITY {
            return false;
        }
        if self.cancelled && (self.output_buffer.len() > 0 || self.held.len() > 0) {
            return false;
        }
        let mut i: usize = 0;
        while i < self.cycles.len()
            invariant
                i <= self.cycles@.len(),
                forall|k: int| 0 <= k < i ==> (#[trigger] self.cycles@[k]).wf(),
            decreases self.cycles@.len() - i,
        {
            if !self.cycles[i].is_wf() {
                return false;
            }
            i += 1;
        }
        true
    }

    /// Whether the buffer has room, so that feeds may bring more.
    pub fn has_room(&self) -> (room: bool)
        requires
            self.wf(),
        ensures
            room == (!self.cancelled && self.queue().len() < CAPACITY),
    {
        !self.cancelled && self.held.len() == 0 && self.output_buffer.len() < CAPACITY
    }

    /// Queues `item` behind everything that is due already: in the buffer
    /// where it has room, and held back where it has none.
    fn enqueue(&mut self, item: Result<Product, Error>)
        requires
            old(self).wf(),
            !old(self).cancelled,
        ensures
            final(self).wf(),
            final(self).queue() == old(self).queue().push(item),
            final(self).cycles == old(self).cycles,
            final(self).state == old(self).state,
            final(self).cancelled == old(self).cancelled,
    {
        if self.held.len() == 0 && self.output_buffer.len() < CAPACITY {
            self.output_buffer.push_back(item);
        } else {
            self.held.push_back(item);
        }
        assert(self.queue() =~= old(self).queue().push(item));
    }

    /// Queues `items`, in their order, behind everything that is due already.
    fn enqueue_all(&mut self, items: Vec<Result<Product, Error>>)
        requires
            old(self).wf(),
            !old(self).cancelled,
        ensures
            final(self).wf(),
            final(self).queue() == old(self).queue() + items@,
            final(self).cycles == old(self).cycles,
            final(self).state == old(self).state,
            final(self).cancelled == old(self).cancelled,
    {
        let ghost all = items@;
        let ghost before = self.queue();
        let mut reversed: Vec<Result<Product, Error>> = Vec::new();
        let mut items = items;
        while items.len() > 0
            invariant
                items@ == all.take(items@.len() as int),
                items@.len() <= all.len(),
                reversed@.len() + items@.len() == all.len(),
                forall|k: int|
                    0 <= k < reversed@.len() ==> reversed@[k] == all[all.len() - 1 - k],
            decreases items@.len(),
        {
            let ghost n = items@.len() - 1;
            let item = items.pop().unwrap();
            reversed.push(item);
            assert(items@ =~= all.take(n));
        }
        assert(all.take(0) =~= Seq::empty());
        assert(self.queue() =~= before + all.take(0));
        while reversed.len() > 0
            invariant
                self.wf(),
                !self.cancelled,
                reversed@.len() <= all.len(),
                forall|k: int|
                    0 <= k < reversed@.len() ==> reversed@[k] == all[all.len() - 1 - k],
                self.queue() == before + all.take(all.len() - reversed@.len()),
                self.cycles == old(self).cycles,
                self.state == old(self).state,
                self.cancelled == old(self).cancelled,
            decreases reversed@.len(),
        {
            let ghost done = all.len() - reversed@.len();
            let item = reversed.pop().unwrap();
            assert(item == all[done]);
            self.enqueue(item);
            assert(before + all.take(done + 1) =~= (before + all.take(done)).push(item));
        }
        assert(all.take(all.len() as int) =~= all);
    }

    /// Whether `after` and `action` are what follows `event`, reported of the
    /// feed at index `feed` at the time `now`, in the stream `before`.
    ///
    /// Of a cancelled stream, or of a feed that the source does not have, the
    /// answer is [`Action::Halt`] and nothing changes. Elsewhere the feed's
    /// cycle moves as [`transition`] rules, and the other cycles stay. What
    /// the cycle delivers is unpacked, as [`StreamState::new_products_at`]
    /// does, and queued in the order of the batch behind what was due; an
    /// error that it surfaces, or bytes that are no archive, are queued as one
    /// error. In both cases the feed's owner has nothing to do but wait.
    /// Whatever else the cycle asks is the owner's to do.
    pub open spec fn follows(
        before: Self,
        after: Self,
        feed: usize,
        event: Event,
        now: u128,
        action: Action,
    ) -> bool {
        if before.cancelled || feed >= before.cycles@.len() {
            action == Action::Halt && after == before
        } else {
            let (cycle, asked) = transition(before.cycles@[feed as int], event);
            let due = before.queue();
            &&& after.cycles@ == before.cycles@.update(feed as int, cycle)
            &&& !after.cancelled
            &&& match asked {
                Action::Deliver(bytes) => {
                    &&& action == Action::Idle
                    &&& after.queue().take(due.len() as int) == due
                    &&& if zip_readable(bytes@) {
                        &&& after.state@ == registry_after(before.state@, listing_of(bytes@), now)
                        &&& are_new_products(
                            after.queue().skip(due.len() as int),
                            before.state@.dom(),
                            bytes@,
                        )
                    } else {
                        &&& after.state@ == before.state@
                        &&& after.queue().len() == due.len() + 1
                        &&& after.queue().last() matches Err(Error::ArchiveFormat(_))
                    }
                },
                Action::Surface(error) => {
                    &&& action == Action::Idle
                    &&& after.queue() == due.push(Err(error))
                    &&& after.state@ == before.state@
                },
                _ => {
                    &&& action == asked
                    &&& after.queue() == due
                    &&& after.state@ == before.state@
                },
            }
        }
    }

    /// Takes `event`, reported of the feed at index `feed` at the time `now`,
    /// and says what that feed's owner is to do next, as
    /// [`Stream::follows`] rules.
    pub fn handle_at(&mut self, feed: usize, event: Event, now: u128) -> (action: Action)
        requires
            old(self).wf(),
        ensures
            final(self).wf(),
            Self::follows(*old(self), *final(self), feed, event, now, action),
    {
        if self.cancelled || feed >= self.cycles.len() {
            return Action::Halt;
        }
        let ghost due = self.queue();
        let asked = self.cycles[feed].step(event);
        match asked {
            Action::Deliver(bytes) => {
                match self.state.new_products_at(bytes, now) {
                    Ok(products) => {
                        self.enqueue_all(products);
                        assert(self.queue().take(due.len() as int) =~= due);
                        assert(self.queue().skip(due.len() as int) =~= products@);
                    },
                    Err(error) => {
                        self.enqueue(Err(error));
                        assert(self.queue().take(due.len() as int) =~= due);
                    },
                }
                Action::Idle
            },
            Action::Surface(error) => {
                self.enqueue(Err(error));
                Action::Idle
            },
            other => other,
        }
    }

    /// Takes `event`, reported of the feed at index `feed` now, by the
    /// registry's clock, as [`Stream::handle_at`] does for the clock's reading.
    pub fn handle(&mut self, feed: usize, event: Event) -> (action: Action)
        requires
            old(self).wf(),
        ensures
            final(self).wf(),
            exists|now: u128| Self::follows(*old(self), *final(self), feed, event, now, action),
    {
        let now = self.state.now();
        self.handle_at(feed, event, now)
    }

    /// A cancelled stream stays silent: whatever is reported to it, of
    /// whichever feed and at whatever time, the answer is [`Action::Halt`]
    /// and the stream is as it was, with nothing queued.
    pub proof fn lemma_cancelled_stream_stays_silent(
        before: Self,
        after: Self,
        feed: usize,
        event: Event,
        now: u128,
        action: Action,
    )
        requires
            before.wf(),
            before.cancelled,
            Self::follows(before, after, feed, event, now, action),
        ensures
            action == Action::Halt,
            after == before,
            after.queue().len() == 0,
    {
    }

    /// Hands the consumer what is due next, if anything is, and lets what was
    /// held back move up into the buffer.
    pub fn next(&mut self) -> (item: Option<Result<Product, Error>>)
        requires
            old(self).wf(),
        ensures
            final(self).wf(),
            final(self).cycles == old(self).cycles,
            final(self).state == old(self).state,
            final(self).cancelled == old(self).cancelled,
            match item {
                Some(first) => {
                    &&& old(self).queue().len() > 0
                    &&& first == old(self).queue()[0]
                    &&& final(self).queue() == old(self).queue().skip(1)
                },
                None => old(self).queue().len() == 0 && final(self).queue().len() == 0,
            },
    {
        let item = self.output_buffer.pop_front();
        if item.is_some() {
            match self.held.pop_front() {
                Some(waiting) => {
                    self.output_buffer.push_back(waiting);
                },
                None => {},
            }
            assert(self.queue() =~= old(self).queue().skip(1));
        }
        item
    }

    /// Cancels the stream: every feed stops and what was queued is discarded.
    /// From then on [`Stream::handle`] answers [`Action::Halt`] to everything
    /// and [`Stream::next`] has nothing to hand out.
    pub fn cancel(&mut self)
        requires
            old(self).wf(),
        ensures
            final(self).wf(),
            final(self).cancelled,
            final(self).queue() == Seq::<Result<Product, Error>>::empty(),
            final(self).cycles == old(self).cycles,
            final(self).state == old(self).state,
    {
        self.cancelled = true;
        self.output_buffer.clear();
        self.held.clear();
        assert(self.queue() =~= Seq::<Result<Product, Error>>::empty());
    }
}

} // verus!

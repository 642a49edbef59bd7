//! Downloading a batch of photos, each on its own.
//!
//! Every photo is driven by a [`PhotoDownload`]: the caller makes the request
//! it names, hands back the reply, and repeats until it is finished. The
//! download of a photo is reported to the catalog first, and its file is only
//! fetched once that report was accepted. A [`Batch`] collects one result per
//! photo, in any order, and yields the outcomes once every photo has one.
use vstd::prelude::*;

use crate::catalog::{acceptance, delivery, Reply, Request};
use crate::error::Result;
use crate::models::Photo;
use crate::params::{download_params, params_view, Download};

verus! {

/// Where the download of one photo stands.
#[derive(Debug, Clone, Copy, PartialEq, Eq, Structural)]
pub enum Stage {
    /// The download is being reported to the catalog.
    Reporting,
    /// The photo's file is being fetched.
    Fetching,
    /// Nothing more is to be done.
    Finished,
}

/// One request made and answered: the stage that made it, and whether the
/// reply was accepted.
pub struct Exchange {
    pub stage: Stage,
    pub accepted: bool,
}

/// The download of one photo as mathematical values.
pub struct DownloadView {
    pub track_url: Seq<char>,
    pub file_url: Seq<char>,
    pub download: Download,
    pub stage: Stage,
    pub history: Seq<Exchange>,
    pub result: Option<Result<Vec<u8>>>,
}

/// A download that has not made any request yet.
pub open spec fn started(photo: Photo, download: Download) -> DownloadView {
    DownloadView {
        track_url: photo@.download_track_url,
        file_url: photo@.file_url,
        download,
        stage: Stage::Reporting,
        history: Seq::empty(),
        result: None,
    }
}

/// The download after the reply to its current request.
pub open spec fn advance(v: DownloadView, reply: Reply) -> DownloadView {
    match v.stage {
        Stage::Reporting => match acceptance(reply) {
            Ok(_) => DownloadView {
                stage: Stage::Fetching,
                history: v.history.push(Exchange { stage: Stage::Reporting, accepted: true }),
                ..v
            },
            Err(e) => DownloadView {
                stage: Stage::Finished,
                history: v.history.push(Exchange { stage: Stage::Reporting, accepted: false }),
                result: Some(Err(e)),
                ..v
            },
        },
        Stage::Fetching => DownloadView {
            stage: Stage::Finished,
            history: v.history.push(
                Exchange { stage: Stage::Fetching, accepted: delivery(reply) is Ok },
            ),
            result: Some(delivery(reply)),
            ..v
        },
        Stage::Finished => v,
    }
}

/// The download after a sequence of replies.
pub open spec fn run(v: DownloadView, replies: Seq<Reply>) -> DownloadView
    decreases replies.len(),
{
    if replies.len() == 0 {
        v
    } else {
        run(advance(v, replies[0]), replies.drop_first())
    }
}

/// The history that a download reaching the given stage must have had.
spec fn consistent(v: DownloadView) -> bool {
    match v.stage {
        Stage::Reporting => v.history.len() == 0 && v.result is None,
        Stage::Fetching => v.history == seq![Exchange { stage: Stage::Reporting, accepted: true }]
            && v.result is None,
        Stage::Finished => v.result matches Some(r) && (r is Ok ==> v.history == seq![
            Exchange { stage: Stage::Reporting, accepted: true },
            Exchange { stage: Stage::Fetching, accepted: true },
        ]),
    }
}

proof fn lemma_run_consistent(v: DownloadView, replies: Seq<Reply>)
    requires
        consistent(v),
    ensures
        consistent(run(v, replies)),
    decreases replies.len(),
{
    if replies.len() > 0 {
        let next = advance(v, replies[0]);
        match v.stage {
            Stage::Reporting => {
                assert(v.history.push(Exchange { stage: Stage::Reporting, accepted: true })
                    =~= seq![Exchange { stage: Stage::Reporting, accepted: true }]);
            },
            Stage::Fetching => {
                assert(v.history.push(
                    Exchange { stage: Stage::Fetching, accepted: delivery(replies[0]) is Ok },
                ) =~= seq![
                    Exchange { stage: Stage::Reporting, accepted: true },
                    Exchange { stage: Stage::Fetching, accepted: delivery(replies[0]) is Ok },
                ]);
            },
            Stage::Finished => {},
        }
        lemma_run_consistent(next, replies.drop_first());
    }
}

/// Whatever the replies, a photo whose download succeeded had its download
/// reported and accepted first, and its file fetched after that, with no
/// other request made.
pub proof fn lemma_report_before_fetch(photo: Photo, download: Download, replies: Seq<Reply>)
    ensures
        run(started(photo, download), replies).result matches Some(Ok(_)) ==> run(
            started(photo, download),
            replies,
        ).history == seq![
            Exchange { stage: Stage::Reporting, accepted: true },
            Exchange { stage: Stage::Fetching, accepted: true },
        ],
{
    lemma_run_consistent(started(photo, download), replies);
}

/// The download of one photo, one request at a time.
pub struct PhotoDownload {
    track_url: String,
    file_url: String,
    download: Download,
    stage: Stage,
    history: Ghost<Seq<Exchange>>,
    result: Option<Result<Vec<u8>>>,
}

impl View for PhotoDownload {
    type V = DownloadView;

    closed spec fn view(&self) -> DownloadView {
        DownloadView {
            track_url: self.track_url@,
            file_url: self.file_url@,
            download: self.download,
            stage: self.stage,
            history: self.history@,
            result: self.result,
        }
    }
}

impl PhotoDownload {
    /// Starts the download of a photo in the given shape.
    pub fn new(photo: &Photo, download: Download) -> (r: PhotoDownload)
        ensures
            r@ == started(*photo, download),
    {
        PhotoDownload {
            track_url: String::from_str(photo.download_track_url()),
            file_url: String::from_str(photo.file_url()),
            download,
            stage: Stage::Reporting,
            history: Ghost(Seq::empty()),
            result: None,
        }
    }

    /// Where the download stands.
    pub fn stage(&self) -> (r: Stage)
        ensures
            r == self@.stage,
    {
        self.stage
    }

    /// The request to make next: the report of the download, then the file
    /// with the parameters of the requested shape; none once finished.
    pub fn request(&self) -> (r: Option<Request>)
        ensures
            match self@.stage {
                Stage::Reporting => r matches Some(req) && req.url@ == self@.track_url
                    && req.query@.len() == 0,
                Stage::Fetching => r matches Some(req) && req.url@ == self@.file_url
                    && params_view(req.query@) == download_params(self@.download),
                Stage::Finished => r is None,
            },
    {
        match self.stage {
            Stage::Reporting => Some(
                Request { url: String::from_str(self.track_url.as_str()), query: Vec::new() },
            ),
            Stage::Fetching => Some(
                Request {
                    url: String::from_str(self.file_url.as_str()),
                    query: self.download.to_query_params(),
                },
            ),
            Stage::Finished => None,
        }
    }

    /// Takes the reply to the request last made.
    pub fn on_reply(&mut self, reply: Reply)
        ensures
            final(self)@ == advance(old(self)@, reply),
    {
        match self.stage {
            Stage::Reporting => match reply.accepted() {
                Ok(()) => {
                    self.stage = Stage::Fetching;
                    self.history = Ghost(
                        self.history@.push(Exchange { stage: Stage::Reporting, accepted: true }),
                    );
                },
                Err(e) => {
                    self.stage = Stage::Finished;
                    self.history = Ghost(
                        self.history@.push(Exchange { stage: Stage::Reporting, accepted: false }),
                    );
                    self.result = Some(Err(e));
                },
            },
            Stage::Fetching => {
                let ghost delivered = delivery(reply);
                let body = reply.into_body();
                self.stage = Stage::Finished;
                self.history = Ghost(
                    self.history@.push(Exchange { stage: Stage::Fetching, accepted: delivered is Ok }),
                );
                self.result = Some(body);
            },
            Stage::Finished => {},
        }
    }

    /// The result of a finished download; none before.
    pub fn into_result(self) -> (r: Option<Result<Vec<u8>>>)
        ensures
            r == (if self@.stage == Stage::Finished {
                self@.result
            } else {
                None
            }),
    {
        match self.stage {
            Stage::Finished => self.result,
            _ => None,
        }
    }
}

/// What came of one photo of a batch.
pub struct Outcome {
    pub photo: Photo,
    pub result: Result<Vec<u8>>,
}

/// A batch as mathematical values: its photos and the result recorded for
/// each so far.
pub struct BatchView {
    pub photos: Seq<Photo>,
    pub results: Seq<Option<Result<Vec<u8>>>>,
}

/// Whether every photo of the batch has a result.
pub open spec fn complete(v: BatchView) -> bool {
    forall|i: int| 0 <= i < v.results.len() ==> #[trigger] v.results[i] is Some
}

/// The outcomes of a complete batch: one per photo, in the order of the photos.
pub open spec fn collected(v: BatchView) -> Seq<(Photo, Result<Vec<u8>>)> {
    Seq::new(v.photos.len(), |i: int| (v.photos[i], v.results[i]->0))
}

/// A batch yields exactly one outcome per photo, for that photo, whichever
/// of the downloads failed.
pub proof fn lemma_one_outcome_each(v: BatchView)
    requires
        v.results.len() == v.photos.len(),
        complete(v),
    ensures
        collected(v).len() == v.photos.len(),
        forall|i: int| 0 <= i < v.photos.len() ==> (#[trigger] collected(v)[i]).0 == v.photos[i],
        forall|i: int|
            0 <= i < v.photos.len() ==> Some((#[trigger] collected(v)[i]).1) == v.results[i],
{
}

/// A failure of one photo changes the outcome of no other photo: two batches
/// of the same photos whose results differ at `k` alone yield the same
/// outcomes everywhere but at `k`.
pub proof fn lemma_failure_isolated(v: BatchView, w: BatchView, k: int)
    requires
        v.results.len() == v.photos.len(),
        w.photos == v.photos,
        w.results.len() == v.results.len(),
        forall|i: int| 0 <= i < v.results.len() && i != k ==> w.results[i] == v.results[i],
    ensures
        forall|i: int|
            0 <= i < v.photos.len() && i != k ==> #[trigger] collected(w)[i] == collected(v)[i],
{
}

/// The photos of one acquisition and the results that came back for them.
pub struct Batch {
    photos: Vec<Photo>,
    results: Vec<Option<Result<Vec<u8>>>>,
}

impl View for Batch {
    type V = BatchView;

    closed spec fn view(&self) -> BatchView {
        BatchView { photos: self.photos@, results: self.results@ }
    }
}

impl Batch {
    /// A batch of these photos, none with a result yet.
    pub fn new(photos: Vec<Photo>) -> (r: Batch)
        ensures
            r@.photos == photos@,
            r@.results.len() == photos@.len(),
            forall|i: int| 0 <= i < photos@.len() ==> #[trigger] r@.results[i] is None,
    {
        let mut results: Vec<Option<Result<Vec<u8>>>> = Vec::new();
        let mut i: usize = 0;
        while i < photos.len()
            invariant
                i <= photos.len(),
                results@.len() == i,
                forall|j: int| 0 <= j < i ==> #[trigger] results@[j] is None,
            decreases photos.len() - i,
        {
            results.push(None);
            i = i + 1;
        }
        Batch { photos, results }
    }

    /// The number of photos.
    pub fn len(&self) -> (r: usize)
        ensures
            r == self@.photos.len(),
    {
        self.photos.len()
    }

    /// The photo at `index`.
    pub fn photo(&self, index: usize) -> (r: Option<&Photo>)
        ensures
            index < self@.photos.len() ==> r == Some(&self@.photos[index as int]),
            index >= self@.photos.len() ==> r is None,
    {
        if index < self.photos.len() {
            Some(&self.photos[index])
        } else {
            None
        }
    }

    /// Records the result for the photo at `index`. Only the first result of
    /// each photo is kept; a later one, or one for no photo, is refused. No
    /// other photo's result changes.
    pub fn record(&mut self, index: usize, result: Result<Vec<u8>>) -> (recorded: bool)
        requires
            old(self)@.results.len() == old(self)@.photos.len(),
        ensures
            recorded == (index < old(self)@.photos.len() && old(self)@.results[index as int] is None),
            final(self)@.photos == old(self)@.photos,
            recorded ==> final(self)@.results == old(self)@.results.update(index as int, Some(result)),
            !recorded ==> final(self)@.results == old(self)@.results,
    {
        if index < self.results.len() && self.results[index].is_none() {
            self.results.set(index, Some(result));
            true
        } else {
            false
        }
    }

    /// Whether every photo has a result.
    pub fn is_complete(&self) -> (r: bool)
        ensures
            r == complete(self@),
    {
        let mut i: usize = 0;
        while i < self.results.len()
            invariant
                i <= self.results.len(),
                forall|j: int| 0 <= j < i ==> #[trigger] self.results@[j] is Some,
            decreases self.results.len() - i,
        {
            if self.results[i].is_none() {
                return false;
            }
            i = i + 1;
        }
        true
    }

    /// One outcome per photo, in the order of the photos, once every photo has
    /// a result; none before.
    pub fn into_outcomes(self) -> (r: Option<Vec<Outcome>>)
        requires
            self@.results.len() == self@.photos.len(),
        ensures
            r is Some <==> complete(self@),
            r matches Some(out) ==> out@.len() == self@.photos.len() && forall|i: int|
                0 <= i < out@.len() ==> (#[trigger] out@[i].photo, out@[i].result) == collected(
                    self@,
                )[i],
    {
        if !self.is_complete() {
            return None;
        }
        let ghost v = self@;
        let Batch { mut photos, mut results } = self;
        let mut out: Vec<Outcome> = Vec::new();
        while photos.len() > 0
            invariant
                photos.len() == results.len(),
                photos@.len() + out@.len() == v.photos.len(),
                photos@ == v.photos.take(photos@.len() as int),
                results@ == v.results.take(results@.len() as int),
                v.results.len() == v.photos.len(),
                complete(v),
                forall|i: int|
                    0 <= i < out@.len() ==> (#[trigger] out@[i].photo, out@[i].result) == collected(
                        v,
                    )[i + photos@.len()],
            decreases photos.len(),
        {
            let ghost n = photos@.len();
            let photo = photos.pop().unwrap();
            let slot = results.pop().unwrap();
            assert(slot == v.results[n - 1]);
            let result = slot.unwrap();
            assert(photos@ =~= v.photos.take(photos@.len() as int));
            assert(results@ =~= v.results.take(results@.len() as int));
            let ghost before = out@;
            out.insert(0, Outcome { photo, result });
            assert forall|i: int| 0 <= i < out@.len() implies (
            #[trigger] out@[i].photo,
            out@[i].result,
            ) == collected(v)[i + photos@.len()] by {
                if i > 0 {
                    assert(out@[i] == before[i - 1]);
                }
            }
        }
        Some(out)
    }
}

} // verus!

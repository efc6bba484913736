//! A batch of stickers: the names to work through, the outcome of each, and
//! what is shown of them at the end.
//!
//! The batch is a state machine. `Batch::start` reads the names and gives
//! the first request; each reply is handed to `Batch::step`, which records
//! what became of the item and gives the next request. An item that fails
//! is recorded and the batch goes on.

use vstd::prelude::*;
use vstd::string::StringExecFns;
use crate::archive::{files_view, generate_download_link, offered_link, zipped};
use crate::config::Config;
use crate::error::{error_text, StickerError, StickerErrorView};
use crate::sticker::{
    sticker_with_image, with_image, ImageData, PendingSticker, Progress, ProgressView,
};
use crate::text::{chars_of, copy_range, string_of, texts, trim_chars, trimmed};
use crate::wiki::{page_progress, page_query, page_request, sticker_from_reply};

verus! {

/// The position of the first line feed of `s` at or after `from`, or the
/// length of `s` if there is none.
pub open spec fn line_end(s: Seq<char>, from: int) -> int
    decreases s.len() - from,
{
    if from < 0 || from >= s.len() {
        s.len() as int
    } else if s[from] == '\n' {
        from
    } else {
        line_end(s, from + 1)
    }
}

/// The line that starts at `from` ends between `from` and the end of `s`.
pub proof fn lemma_line_end(s: Seq<char>, from: int)
    requires
        0 <= from <= s.len(),
    ensures
        from <= line_end(s, from) <= s.len(),
    decreases s.len() - from,
{
    if from < s.len() && s[from] != '\n' {
        lemma_line_end(s, from + 1);
    }
}

/// The lines of `s` from position `from` on that are not empty, in order.
pub open spec fn lines_from(s: Seq<char>, from: int) -> Seq<Seq<char>>
    decreases s.len() - from,
{
    if from < 0 || from > s.len() {
        Seq::empty()
    } else {
        proof {
            lemma_line_end(s, from);
        }
        let end = line_end(s, from);
        let rest = if end < s.len() {
            lines_from(s, end + 1)
        } else {
            Seq::empty()
        };
        if end > from {
            seq![s.subrange(from, end)] + rest
        } else {
            rest
        }
    }
}

/// From the end of a line on, the line ends where it ends.
proof fn lemma_line_end_within(s: Seq<char>, from: int, k: int)
    requires
        0 <= from <= k <= line_end(s, from),
        k <= s.len(),
    ensures
        line_end(s, k) == line_end(s, from),
        from <= k < line_end(s, from) ==> s[k] != '\n',
    decreases k - from,
{
    lemma_line_end(s, from);
    if from < k {
        if from < s.len() && s[from] != '\n' {
            lemma_line_end_within(s, from + 1, k);
        }
    }
}

/// Each of the lines from a position on is a line of the text: it is not
/// empty and holds no line feed.
pub proof fn lemma_lines_from(s: Seq<char>, from: int)
    requires
        0 <= from <= s.len(),
    ensures
        forall|i: int|
            0 <= i < lines_from(s, from).len() ==> (#[trigger] lines_from(s, from)[i]).len() > 0
                && !lines_from(s, from)[i].contains('\n'),
    decreases s.len() - from,
{
    lemma_line_end(s, from);
    let end = line_end(s, from);
    if end < s.len() {
        lemma_lines_from(s, end + 1);
    }
    let rest = if end < s.len() {
        lines_from(s, end + 1)
    } else {
        Seq::<Seq<char>>::empty()
    };
    let line = s.subrange(from, end);
    assert forall|k: int| 0 <= k < line.len() implies line[k] != '\n' by {
        lemma_line_end_within(s, from, from + k);
    }
    assert forall|i: int| 0 <= i < lines_from(s, from).len() implies (#[trigger] lines_from(
        s,
        from,
    )[i]).len() > 0 && !lines_from(s, from)[i].contains('\n') by {
        if end > from {
            if i == 0 {
                assert(lines_from(s, from)[0] == line);
            } else {
                assert(lines_from(s, from)[i] == rest[i - 1]);
            }
        } else {
            assert(lines_from(s, from)[i] == rest[i]);
        }
    }
}

/// Every name of a list of names is a line of the list: it is not empty
/// and holds no line feed.
pub proof fn lemma_names_are_lines(input: Seq<char>)
    ensures
        forall|i: int|
            0 <= i < names_of(input).len() ==> (#[trigger] names_of(input)[i]).len() > 0
                && !names_of(input)[i].contains('\n'),
{
    lemma_lines_from(trimmed(input), 0);
}

/// The names that a list of names holds: the lines of the trimmed list that
/// are not empty, in order.
pub open spec fn names_of(input: Seq<char>) -> Seq<Seq<char>> {
    lines_from(trimmed(input), 0)
}

/// Reads a list of names, one on each line: white space around the list is
/// dropped, and so are empty lines.
pub fn split_names(input: &str) -> (names: Vec<String>)
    ensures
        texts(names@) == names_of(input@),
{
    let raw = chars_of(input);
    let s = trim_chars(&raw);
    let n = s.len();
    let mut names: Vec<String> = Vec::new();
    let mut from: usize = 0;
    let mut done = false;
    assert(texts(names@) =~= Seq::<Seq<char>>::empty());
    while !done
        invariant
            from <= n,
            n == s.len(),
            s@ == trimmed(input@),
            !done ==> texts(names@) + lines_from(s@, from as int) == lines_from(s@, 0),
            done ==> texts(names@) == lines_from(s@, 0),
        decreases n - from + (if done { 0int } else { 1int }),
    {
        let ghost before = texts(names@);
        let mut end: usize = from;
        while end < n && s[end] != '\n'
            invariant
                from <= end <= n,
                n == s.len(),
                line_end(s@, from as int) == line_end(s@, end as int),
            decreases n - end,
        {
            end += 1;
        }
        if end > from {
            let line = copy_range(&s, from, end);
            names.push(string_of(&line));
            assert(texts(names@) =~= before.push(s@.subrange(from as int, end as int)));
        }
        proof {
            let rest = if end < n {
                lines_from(s@, end + 1)
            } else {
                Seq::<Seq<char>>::empty()
            };
            if end > from {
                assert(texts(names@) + rest =~= before + (seq![s@.subrange(from as int, end as int)]
                    + rest));
            }
        }
        if end < n {
            from = end + 1;
        } else {
            proof {
                assert(texts(names@) + Seq::<Seq<char>>::empty() =~= texts(names@));
            }
            done = true;
        }
    }
    names
}

/// What became of one item.
pub enum Outcome {
    /// The sticker, as SVG text.
    Rendered(String),
    /// The reason for which there is no sticker.
    Failed(String),
}

/// What an `Outcome` stands for.
pub ghost enum OutcomeView {
    Rendered(Seq<char>),
    Failed(Seq<char>),
}

impl View for Outcome {
    type V = OutcomeView;

    open spec fn view(&self) -> OutcomeView {
        match self {
            Outcome::Rendered(svg) => OutcomeView::Rendered(svg@),
            Outcome::Failed(message) => OutcomeView::Failed(message@),
        }
    }
}

/// One item of a batch with what became of it.
pub struct Item {
    pub name: String,
    pub outcome: Outcome,
}

/// What an `Item` stands for.
pub ghost struct ItemView {
    pub name: Seq<char>,
    pub outcome: OutcomeView,
}

impl View for Item {
    type V = ItemView;

    open spec fn view(&self) -> ItemView {
        ItemView { name: self.name@, outcome: self.outcome@ }
    }
}

/// What a vector of items stands for.
pub open spec fn items_view(items: Seq<Item>) -> Seq<ItemView> {
    Seq::new(items.len(), |i: int| items[i]@)
}

/// The line of the error log for the item called `name` that failed for
/// the reason `message`.
pub open spec fn error_line(name: Seq<char>, message: Seq<char>) -> Seq<char> {
    "Failed to generate sticker for \""@ + name + "\": "@ + message + "\n"@
}

/// The error log: a line for each item that failed, in order.
pub open spec fn error_log_of(items: Seq<ItemView>) -> Seq<char>
    decreases items.len(),
{
    if items.len() == 0 {
        Seq::empty()
    } else {
        error_log_of(items.drop_last()) + match items.last().outcome {
            OutcomeView::Failed(message) => error_line(items.last().name, message),
            OutcomeView::Rendered(_) => Seq::empty(),
        }
    }
}

/// The stickers that were rendered, one after the other, in order.
pub open spec fn success_text_of(items: Seq<ItemView>) -> Seq<char>
    decreases items.len(),
{
    if items.len() == 0 {
        Seq::empty()
    } else {
        success_text_of(items.drop_last()) + match items.last().outcome {
            OutcomeView::Rendered(svg) => svg,
            OutcomeView::Failed(_) => Seq::empty(),
        }
    }
}

/// The files of the archive: for each sticker that was rendered, in order,
/// its text under the item's name with `.svg` behind it.
pub open spec fn archive_entries_of(items: Seq<ItemView>) -> Seq<(Seq<char>, Seq<char>)>
    decreases items.len(),
{
    if items.len() == 0 {
        Seq::empty()
    } else {
        match items.last().outcome {
            OutcomeView::Rendered(svg) => archive_entries_of(items.drop_last()).push(
                (items.last().name + ".svg"@, svg),
            ),
            OutcomeView::Failed(_) => archive_entries_of(items.drop_last()),
        }
    }
}

/// The items of a batch in the order of the names, each with its outcome.
pub struct BatchResult {
    pub items: Vec<Item>,
}

impl View for BatchResult {
    type V = Seq<ItemView>;

    open spec fn view(&self) -> Seq<ItemView> {
        items_view(self.items@)
    }
}

impl BatchResult {
    /// The error log: for each item that failed, in order, a line with the
    /// item's name and the reason.
    pub fn error_log(&self) -> (log: String)
        ensures
            log@ == error_log_of(self@),
    {
        let mut log = String::new();
        let mut i: usize = 0;
        while i < self.items.len()
            invariant
                i <= self.items@.len(),
                log@ == error_log_of(self@.take(i as int)),
            decreases self.items@.len() - i,
        {
            assert(self@.take(i + 1).drop_last() == self@.take(i as int));
            assert(self@.take(i + 1).last() == self.items@[i as int]@);
            match &self.items[i].outcome {
                Outcome::Failed(message) => {
                    let line = "Failed to generate sticker for \"".to_owned().concat(
                        self.items[i].name.as_str(),
                    ).concat("\": ").concat(message.as_str()).concat("\n");
                    log = log.concat(line.as_str());
                },
                Outcome::Rendered(_) => {
                    assert(log@ + Seq::<char>::empty() == log@);
                },
            }
            i += 1;
        }
        assert(self@.take(self.items@.len() as int) == self@);
        log
    }

    /// The stickers that were rendered, one after the other, in order.
    pub fn success_text(&self) -> (text: String)
        ensures
            text@ == success_text_of(self@),
    {
        let mut text = String::new();
        let mut i: usize = 0;
        while i < self.items.len()
            invariant
                i <= self.items@.len(),
                text@ == success_text_of(self@.take(i as int)),
            decreases self.items@.len() - i,
        {
            assert(self@.take(i + 1).drop_last() == self@.take(i as int));
            assert(self@.take(i + 1).last() == self.items@[i as int]@);
            match &self.items[i].outcome {
                Outcome::Rendered(svg) => {
                    text = text.concat(svg.as_str());
                },
                Outcome::Failed(_) => {
                    assert(text@ + Seq::<char>::empty() == text@);
                },
            }
            i += 1;
        }
        assert(self@.take(self.items@.len() as int) == self@);
        text
    }

    /// The files of the archive: for each sticker that was rendered, in
    /// order, its text under the item's name with `.svg` behind it.
    pub fn archive_entries(&self) -> (files: Vec<(String, String)>)
        ensures
            files_view(files@) == archive_entries_of(self@),
    {
        let mut files: Vec<(String, String)> = Vec::new();
        let mut i: usize = 0;
        assert(files_view(files@) =~= Seq::<(Seq<char>, Seq<char>)>::empty());
        while i < self.items.len()
            invariant
                i <= self.items@.len(),
                files_view(files@) == archive_entries_of(self@.take(i as int)),
            decreases self.items@.len() - i,
        {
            let ghost before = files_view(files@);
            assert(self@.take(i + 1).drop_last() == self@.take(i as int));
            assert(self@.take(i + 1).last() == self.items@[i as int]@);
            match &self.items[i].outcome {
                Outcome::Rendered(svg) => {
                    let name = self.items[i].name.clone().concat(".svg");
                    let ghost entry = (name@, svg@);
                    files.push((name, svg.clone()));
                    assert(files_view(files@) =~= before.push(entry));
                },
                Outcome::Failed(_) => {},
            }
            i += 1;
        }
        assert(self@.take(self.items@.len() as int) == self@);
        files
    }

    /// The link from which the archive of the rendered stickers can be
    /// downloaded: the archive holds the files that `archive_entries`
    /// gives. There is no link where the archive cannot be written or is
    /// too large for a link.
    pub fn download_link(&self) -> (r: Option<String>)
        ensures
            r is Some <==> offered_link(zipped(archive_entries_of(self@))) is Some,
            r matches Some(link) ==> Some(link@) == offered_link(
                zipped(archive_entries_of(self@)),
            ),
    {
        let files = self.archive_entries();
        generate_download_link(&files)
    }
}

/// An item that failed leaves its line in the error log and no trace in
/// the success text nor in the archive.
pub proof fn lemma_failure_leaves_no_trace(items: Seq<ItemView>, name: Seq<char>, message: Seq<char>)
    ensures
        success_text_of(items.push(ItemView { name, outcome: OutcomeView::Failed(message) }))
            == success_text_of(items),
        archive_entries_of(items.push(ItemView { name, outcome: OutcomeView::Failed(message) }))
            == archive_entries_of(items),
        error_log_of(items.push(ItemView { name, outcome: OutcomeView::Failed(message) }))
            == error_log_of(items) + error_line(name, message),
{
    let item = ItemView { name, outcome: OutcomeView::Failed(message) };
    assert(items.push(item).drop_last() == items);
    assert(success_text_of(items) + Seq::<char>::empty() == success_text_of(items));
}

/// A sticker that was rendered goes to the end of the success text and of
/// the archive, and leaves no line in the error log.
pub proof fn lemma_success_is_appended(items: Seq<ItemView>, name: Seq<char>, svg: Seq<char>)
    ensures
        success_text_of(items.push(ItemView { name, outcome: OutcomeView::Rendered(svg) }))
            == success_text_of(items) + svg,
        archive_entries_of(items.push(ItemView { name, outcome: OutcomeView::Rendered(svg) }))
            == archive_entries_of(items).push((name + ".svg"@, svg)),
        error_log_of(items.push(ItemView { name, outcome: OutcomeView::Rendered(svg) }))
            == error_log_of(items),
{
    let item = ItemView { name, outcome: OutcomeView::Rendered(svg) };
    assert(items.push(item).drop_last() == items);
    assert(error_log_of(items) + Seq::<char>::empty() == error_log_of(items));
}

/// What the machine asks for next.
pub enum BatchRequest {
    /// Send this query to the wiki and hand the reply to `step`.
    Page(String),
    /// Fetch the photo at this address and hand it to `step`.
    Image(String),
    /// Every name has its outcome.
    Finished,
}

/// What a `BatchRequest` stands for.
pub ghost enum BatchRequestView {
    Page(Seq<char>),
    Image(Seq<char>),
    Finished,
}

impl View for BatchRequest {
    type V = BatchRequestView;

    open spec fn view(&self) -> BatchRequestView {
        match self {
            BatchRequest::Page(query) => BatchRequestView::Page(query@),
            BatchRequest::Image(url) => BatchRequestView::Image(url@),
            BatchRequest::Finished => BatchRequestView::Finished,
        }
    }
}

/// What came back for a request: the body of the wiki's reply or the photo,
/// or the transport's error.
pub enum BatchReply {
    Page(Result<String, String>),
    Image(Result<ImageData, String>),
}

/// What a `BatchReply` stands for. A photo is its type, if the server named
/// one, and its bytes.
pub ghost enum BatchReplyView {
    Page(Result<Seq<char>, Seq<char>>),
    Image(Result<(Option<Seq<char>>, Seq<u8>), Seq<char>>),
}

impl View for BatchReply {
    type V = BatchReplyView;

    open spec fn view(&self) -> BatchReplyView {
        match self {
            BatchReply::Page(Ok(body)) => BatchReplyView::Page(Ok(body@)),
            BatchReply::Page(Err(detail)) => BatchReplyView::Page(Err(detail@)),
            BatchReply::Image(Ok(data)) => BatchReplyView::Image(
                Ok(
                    (
                        match data.mime {
                            Some(m) => Some(m@),
                            None => None,
                        },
                        data.bytes@,
                    ),
                ),
            ),
            BatchReply::Image(Err(detail)) => BatchReplyView::Image(Err(detail@)),
        }
    }
}

/// What a sticker that waits for its photo stands for.
pub ghost struct PendingView {
    pub fields: Map<Seq<char>, Seq<char>>,
    pub template: Seq<char>,
    pub image_url: Seq<char>,
}

/// The state of a batch.
pub struct Batch {
    names: Vec<String>,
    result: BatchResult,
    pending: Option<PendingSticker>,
}

/// What a `Batch` stands for: the names, the items that have their outcome,
/// and the sticker of the next name where it waits for its photo.
pub ghost struct BatchView {
    pub names: Seq<Seq<char>>,
    pub items: Seq<ItemView>,
    pub pending: Option<PendingView>,
}

impl View for Batch {
    type V = BatchView;

    closed spec fn view(&self) -> BatchView {
        BatchView {
            names: texts(self.names@),
            items: self.result@,
            pending: match self.pending {
                Some(p) => Some(
                    PendingView {
                        fields: p.fields@,
                        template: p.template@,
                        image_url: p.image_url@,
                    },
                ),
                None => None,
            },
        }
    }
}

/// The request for the name at position `k`, or `Finished` past the last
/// name.
pub open spec fn request_for(names: Seq<Seq<char>>, k: int) -> BatchRequestView {
    if 0 <= k < names.len() {
        BatchRequestView::Page(page_query(names[k]))
    } else {
        BatchRequestView::Finished
    }
}

/// The state in which the batch of the names listed in `input` starts, and
/// its first request.
pub open spec fn batch_started(input: Seq<char>) -> (BatchView, BatchRequestView) {
    let names = names_of(input);
    (BatchView { names, items: Seq::empty(), pending: None }, request_for(names, 0))
}

/// How far the sticker of the current name has come with `reply`.
///
/// The reply to a page query takes the sticker as far as it goes without
/// the photo; the photo completes a sticker that waited for it; a reply of
/// the other kind fails the item.
pub open spec fn progress_with(
    config: Config,
    name: Seq<char>,
    pending: Option<PendingView>,
    reply: BatchReplyView,
) -> ProgressView {
    match (pending, reply) {
        (None, BatchReplyView::Page(r)) => page_progress(config, name, r),
        (Some(p), BatchReplyView::Image(Ok(image))) => match with_image(
            p.fields,
            p.template,
            image.0,
            image.1,
        ) {
            Ok(svg) => ProgressView::Done(svg),
            Err(e) => ProgressView::Failed(e),
        },
        (Some(p), BatchReplyView::Image(Err(detail))) => ProgressView::Failed(
            StickerErrorView::ImageFailed(detail),
        ),
        _ => ProgressView::Failed(StickerErrorView::UnexpectedReply),
    }
}

/// The state with the outcome of the current name recorded, and the
/// request for the name after it.
pub open spec fn settled(state: BatchView, outcome: OutcomeView) -> (BatchView, BatchRequestView) {
    let name = state.names[state.items.len() as int];
    let items = state.items.push(ItemView { name, outcome });
    (
        BatchView { names: state.names, items, pending: None },
        request_for(state.names, items.len() as int),
    )
}

/// The state and the request after `reply` came back.
///
/// A sticker that is rendered, and one that failed, is recorded under the
/// current name, and the next name is asked for: a failure ends the item,
/// never the batch. A sticker that needs its photo waits, and the photo is
/// asked for. A batch in which every name has its outcome stays as it is.
pub open spec fn batch_after(config: Config, state: BatchView, reply: BatchReplyView) -> (
    BatchView,
    BatchRequestView,
) {
    if state.items.len() >= state.names.len() {
        (state, BatchRequestView::Finished)
    } else {
        let name = state.names[state.items.len() as int];
        match progress_with(config, name, state.pending, reply) {
            ProgressView::NeedsImage { fields, template, image_url } => (
                BatchView {
                    names: state.names,
                    items: state.items,
                    pending: Some(PendingView { fields, template, image_url }),
                },
                BatchRequestView::Image(image_url),
            ),
            ProgressView::Done(svg) => settled(state, OutcomeView::Rendered(svg)),
            ProgressView::Failed(e) => settled(state, OutcomeView::Failed(error_text(e))),
        }
    }
}

impl Batch {
    /// Starts the batch of the names listed in `input`, one on each line.
    /// A list without names is finished at once.
    pub fn start(input: &str) -> (r: (Batch, BatchRequest))
        ensures
            (r.0@, r.1@) == batch_started(input@),
    {
        let names = split_names(input);
        let batch = Batch { names, result: BatchResult { items: Vec::new() }, pending: None };
        assert(batch@.items =~= Seq::<ItemView>::empty());
        let request = batch.request_at(0);
        (batch, request)
    }

    /// The request for the name at position `k`.
    fn request_at(&self, k: usize) -> (r: BatchRequest)
        ensures
            r@ == request_for(self@.names, k as int),
    {
        if k < self.names.len() {
            BatchRequest::Page(page_request(self.names[k].as_str()))
        } else {
            BatchRequest::Finished
        }
    }

    /// Records `outcome` under the current name and gives the request for
    /// the name after it.
    fn settle(&mut self, outcome: Outcome) -> (r: BatchRequest)
        requires
            old(self)@.items.len() < old(self)@.names.len(),
            old(self)@.pending is None,
        ensures
            (final(self)@, r@) == settled(old(self)@, outcome@),
    {
        let k = self.result.items.len();
        let ghost before = self@.items;
        let item = Item { name: self.names[k].clone(), outcome };
        self.result.items.push(item);
        assert(self@.items =~= before.push(
            ItemView { name: old(self)@.names[k as int], outcome: outcome@ },
        ));
        let next = self.result.items.len();
        self.request_at(next)
    }

    /// The name whose sticker is being made, unless every name has its
    /// outcome.
    pub fn current_name(&self) -> (r: Option<&String>)
        ensures
            match r {
                Some(name) => self@.items.len() < self@.names.len() && name@
                    == self@.names[self@.items.len() as int],
                None => self@.items.len() >= self@.names.len(),
            },
    {
        let k = self.result.items.len();
        if k < self.names.len() {
            Some(&self.names[k])
        } else {
            None
        }
    }

    /// Whether every name has its outcome.
    pub fn is_finished(&self) -> (b: bool)
        ensures
            b == (self@.items.len() >= self@.names.len()),
    {
        self.result.items.len() >= self.names.len()
    }

    /// The items that have their outcome, in the order of the names.
    pub fn result(&self) -> (r: &BatchResult)
        ensures
            r@ == self@.items,
    {
        &self.result
    }

    /// Takes what came back for the last request and says what to ask for
    /// next.
    pub fn step(&mut self, config: &Config, reply: BatchReply) -> (r: BatchRequest)
        ensures
            (final(self)@, r@) == batch_after(*config, old(self)@, reply@),
    {
        let k = self.result.items.len();
        if k >= self.names.len() {
            return BatchRequest::Finished;
        }
        let pending = self.pending.take();
        let progress = match pending {
            None => match reply {
                BatchReply::Page(r) => sticker_from_reply(config, self.names[k].as_str(), r),
                BatchReply::Image(_) => Progress::Failed(StickerError::UnexpectedReply),
            },
            Some(p) => match reply {
                BatchReply::Image(r) => match sticker_with_image(p, r) {
                    Ok(svg) => Progress::Done(svg),
                    Err(e) => Progress::Failed(e),
                },
                BatchReply::Page(_) => Progress::Failed(StickerError::UnexpectedReply),
            },
        };
        assert(progress@ == progress_with(
            *config,
            old(self)@.names[k as int],
            old(self)@.pending,
            reply@,
        ));
        match progress {
            Progress::NeedsImage(p) => {
                let url = p.image_url.clone();
                self.pending = Some(p);
                BatchRequest::Image(url)
            },
            Progress::Done(svg) => self.settle(Outcome::Rendered(svg)),
            Progress::Failed(e) => {
                let message = e.message();
                self.settle(Outcome::Failed(message))
            },
        }
    }
}

/// Whether each item that has its outcome bears the name at its position.
pub open spec fn in_step(state: BatchView) -> bool {
    &&& state.items.len() <= state.names.len()
    &&& forall|i: int| 0 <= i < state.items.len() ==> (#[trigger] state.items[i]).name == state.names[i]
}

/// A batch starts with no outcome recorded.
pub proof fn lemma_batch_starts_in_step(input: Seq<char>)
    ensures
        in_step(batch_started(input).0),
        batch_started(input).0.names == names_of(input),
        names_of(input).len() == 0 ==> batch_started(input).1 == BatchRequestView::Finished,
{
}

/// No reply undoes what is recorded, and no failure ends the batch: a step
/// keeps the names and the outcomes of the earlier items, records at most
/// one more outcome, under the name at its position, and, whatever that
/// outcome is, asks for the name after it if there is one.
pub proof fn lemma_batch_step_isolates(config: Config, state: BatchView, reply: BatchReplyView)
    requires
        in_step(state),
    ensures
        ({
            let (next, request) = batch_after(config, state, reply);
            &&& in_step(next)
            &&& next.names == state.names
            &&& state.items.len() <= next.items.len() <= state.items.len() + 1
            &&& next.items.take(state.items.len() as int) == state.items
            &&& next.items.len() == state.items.len() + 1 ==> request == request_for(
                state.names,
                next.items.len() as int,
            )
            &&& request is Finished <==> next.items.len() >= next.names.len()
        }),
{
    let (next, request) = batch_after(config, state, reply);
    assert(next.items.take(state.items.len() as int) =~= state.items);
}

/// The state and the last request of the batch of the names listed in
/// `input` after `replies` came back one by one.
pub open spec fn batch_fed(config: Config, input: Seq<char>, replies: Seq<BatchReplyView>) -> (
    BatchView,
    BatchRequestView,
)
    decreases replies.len(),
{
    if replies.len() == 0 {
        batch_started(input)
    } else {
        batch_after(config, batch_fed(config, input, replies.drop_last()).0, replies.last())
    }
}

/// Whatever comes back, and however often an item fails, the batch keeps
/// its names, each outcome stands under the name at its position, and the
/// batch is finished exactly when every name has its outcome.
pub proof fn lemma_batch_stays_in_step(
    config: Config,
    input: Seq<char>,
    replies: Seq<BatchReplyView>,
)
    ensures
        ({
            let (state, request) = batch_fed(config, input, replies);
            &&& in_step(state)
            &&& state.names == names_of(input)
            &&& state.items.len() <= replies.len()
            &&& request is Finished <==> state.items.len() == state.names.len()
        }),
    decreases replies.len(),
{
    if replies.len() == 0 {
        lemma_batch_starts_in_step(input);
    } else {
        let before = batch_fed(config, input, replies.drop_last());
        lemma_batch_stays_in_step(config, input, replies.drop_last());
        lemma_batch_step_isolates(config, before.0, replies.last());
    }
}

} // verus!

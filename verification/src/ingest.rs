//! Corpus ingestion: JSON lines `{"id": .., "text": ..}` become documents,
//! which are handed out in batches of a fixed size.

use vstd::prelude::*;
use crate::text::{trim, chars_of, trim_bounds};
use crate::json::{json_accepts, json_string_member, json_string_field};

verus! {

/// A document: its id and its text.
pub type Doc = (Seq<char>, Seq<char>);

/// How many documents pass between two progress reports.
pub const PROGRESS_EVERY: usize = 100000;

/// A batch of documents, as two parallel columns.
#[derive(Debug)]
pub struct Batch {
    pub ids: Vec<String>,
    pub texts: Vec<String>,
}

/// The documents of a batch.
pub open spec fn batch_docs(b: Batch) -> Seq<Doc> {
    Seq::new(b.ids.len() as nat, |i: int| (b.ids@[i]@, b.texts@[i]@))
}

/// A batch is well formed when its columns are as long as each other.
pub open spec fn batch_ok(b: Batch) -> bool {
    b.ids.len() == b.texts.len()
}

/// Documents waiting to be handed out, and the count of documents accepted.
pub struct DocBatcher {
    ids: Vec<String>,
    texts: Vec<String>,
    batch_size: usize,
    total: usize,
}

/// After one more document: the batch handed out, if the pending documents
/// reached the batch size, and the documents left pending.
pub open spec fn push_step(pending: Seq<Doc>, doc: Doc, size: nat) -> (Option<Seq<Doc>>, Seq<Doc>) {
    let all = pending.push(doc);
    if all.len() >= size {
        (Some(all), Seq::empty())
    } else {
        (None, all)
    }
}

impl DocBatcher {
    /// The documents accepted and not yet handed out, in order.
    pub closed spec fn pending(&self) -> Seq<Doc> {
        Seq::new(self.ids.len() as nat, |i: int| (self.ids@[i]@, self.texts@[i]@))
    }

    /// The number of documents accepted so far.
    pub closed spec fn total(&self) -> nat {
        self.total as nat
    }

    /// The batch size.
    pub closed spec fn size(&self) -> nat {
        self.batch_size as nat
    }

    /// Fewer documents than a batch are pending.
    pub closed spec fn wf(&self) -> bool {
        &&& self.ids.len() == self.texts.len()
        &&& self.batch_size > 0
        &&& self.ids.len() < self.batch_size
    }

    /// A batcher for batches of `batch_size` documents.
    pub fn new(batch_size: usize) -> (b: DocBatcher)
        requires
            batch_size > 0,
        ensures
            b.wf(),
            b.pending() == Seq::<Doc>::empty(),
            b.total() == 0,
            b.size() == batch_size,
    {
        let b = DocBatcher { ids: Vec::new(), texts: Vec::new(), batch_size, total: 0 };
        assert(b.pending() =~= Seq::<Doc>::empty());
        b
    }

    /// The number of documents accepted so far.
    pub fn total_count(&self) -> (n: usize)
        ensures
            n == self.total(),
    {
        self.total
    }

    /// Accepts a document; hands out the pending documents as a batch when
    /// they reach the batch size.
    pub fn push_doc(&mut self, id: String, text: String) -> (r: Option<Batch>)
        requires
            old(self).wf(),
            old(self).total() < usize::MAX,
        ensures
            final(self).wf(),
            final(self).size() == old(self).size(),
            final(self).total() == old(self).total() + 1,
            ({
                let (out, rest) = push_step(old(self).pending(), (id@, text@), old(self).size());
                &&& final(self).pending() == rest
                &&& match r {
                    Some(b) => out == Some(batch_docs(b)) && batch_ok(b),
                    None => out is None,
                }
            }),
    {
        let ghost all = self.pending().push((id@, text@));
        self.ids.push(id);
        self.texts.push(text);
        self.total = self.total + 1;
        assert(self.pending() =~= all);
        if self.ids.len() >= self.batch_size {
            let mut ids: Vec<String> = Vec::new();
            let mut texts: Vec<String> = Vec::new();
            std::mem::swap(&mut ids, &mut self.ids);
            std::mem::swap(&mut texts, &mut self.texts);
            let b = Batch { ids, texts };
            assert(batch_docs(b) =~= all);
            assert(self.pending() =~= Seq::<Doc>::empty());
            Some(b)
        } else {
            None
        }
    }

    /// Hands out the documents still pending, if any.
    pub fn finish(&mut self) -> (r: Option<Batch>)
        requires
            old(self).wf(),
        ensures
            final(self).wf(),
            final(self).size() == old(self).size(),
            final(self).total() == old(self).total(),
            final(self).pending() == Seq::<Doc>::empty(),
            match r {
                Some(b) => old(self).pending().len() > 0 && batch_docs(b) == old(self).pending()
                    && batch_ok(b),
                None => old(self).pending().len() == 0,
            },
    {
        let ghost before = self.pending();
        if self.ids.len() == 0 {
            assert(self.pending() =~= Seq::<Doc>::empty());
            return None;
        }
        let mut ids: Vec<String> = Vec::new();
        let mut texts: Vec<String> = Vec::new();
        std::mem::swap(&mut ids, &mut self.ids);
        std::mem::swap(&mut texts, &mut self.texts);
        let b = Batch { ids, texts };
        assert(batch_docs(b) =~= before);
        assert(self.pending() =~= Seq::<Doc>::empty());
        Some(b)
    }
}

/// What became of a corpus line.
#[derive(Debug)]
pub enum LineStep {
    /// A blank line, skipped.
    Skipped,
    /// A document was accepted; `progress` asks for a progress report, and
    /// `batch` is a batch that is now ready.
    Accepted { progress: bool, batch: Option<Batch> },
}

/// The string member of a corpus document, or the empty string when the
/// member is missing or not a string.
pub open spec fn member_or_empty(text: Seq<char>, key: Seq<char>) -> Seq<char> {
    match json_string_member(text, key) {
        Some(s) => s,
        None => Seq::empty(),
    }
}

fn member_or_empty_string(m: Option<String>) -> (s: String)
    ensures
        s@ == match crate::fts_query::opt_string_view(m) {
            Some(x) => x,
            None => Seq::empty(),
        },
{
    match m {
        Some(s) => s,
        None => String::new(),
    }
}

impl DocBatcher {
    /// Reads one corpus line: a blank line is skipped; otherwise the line
    /// must be a JSON document, whose `id` and `text` members (empty when
    /// missing) make the document accepted.
    pub fn read_line(&mut self, line: &str) -> (r: Result<LineStep, serde_json::Error>)
        requires
            old(self).wf(),
            old(self).total() < usize::MAX,
        ensures
            final(self).wf(),
            final(self).size() == old(self).size(),
            trim(line@).len() == 0 ==> (r matches Ok(LineStep::Skipped)) && final(self).pending()
                == old(self).pending() && final(self).total() == old(self).total(),
            trim(line@).len() > 0 && !json_accepts(line@) ==> r is Err && final(self).pending()
                == old(self).pending() && final(self).total() == old(self).total(),
            trim(line@).len() > 0 && json_accepts(line@) ==> {
                let doc = (member_or_empty(line@, "id"@), member_or_empty(line@, "text"@));
                let (out, rest) = push_step(old(self).pending(), doc, old(self).size());
                &&& final(self).pending() == rest
                &&& final(self).total() == old(self).total() + 1
                &&& r matches Ok(LineStep::Accepted { progress, batch })
                &&& progress == (final(self).total() % (PROGRESS_EVERY as nat) == 0)
                &&& match batch {
                    Some(b) => out == Some(batch_docs(b)) && batch_ok(b),
                    None => out is None,
                }
            },
    {
        let chars = chars_of(line);
        let (lo, hi) = trim_bounds(&chars);
        if lo == hi {
            return Ok(LineStep::Skipped);
        }
        let id = match json_string_field(line, "id") {
            Ok(m) => member_or_empty_string(m),
            Err(e) => return Err(e),
        };
        let text = match json_string_field(line, "text") {
            Ok(m) => member_or_empty_string(m),
            Err(e) => return Err(e),
        };
        let batch = self.push_doc(id, text);
        let progress = self.total % PROGRESS_EVERY == 0;
        Ok(LineStep::Accepted { progress, batch })
    }
}

/// Feeds `docs` one by one to a batcher holding `pending`: the batches
/// handed out, in order, and the documents left pending.
pub open spec fn feed(pending: Seq<Doc>, docs: Seq<Doc>, size: nat) -> (Seq<Seq<Doc>>, Seq<Doc>)
    decreases docs.len(),
{
    if docs.len() == 0 {
        (Seq::empty(), pending)
    } else {
        let (out, rest) = push_step(pending, docs[0], size);
        let (batches, left) = feed(rest, docs.drop_first(), size);
        match out {
            Some(b) => (seq![b] + batches, left),
            None => (batches, left),
        }
    }
}

/// Batching loses, repeats and reorders no document: the batches handed out,
/// one after another, followed by what is left pending, are the pending
/// documents followed by those fed; every batch has exactly the batch size,
/// and fewer documents than that are left.
pub proof fn law_batches_keep_documents(pending: Seq<Doc>, docs: Seq<Doc>, size: nat)
    requires
        0 < size,
        pending.len() < size,
    ensures
        feed(pending, docs, size).0.flatten() + feed(pending, docs, size).1 == pending + docs,
        forall|i: int|
            0 <= i < feed(pending, docs, size).0.len() ==> (#[trigger] feed(pending, docs, size).0[i]).len()
                == size,
        feed(pending, docs, size).1.len() < size,
    decreases docs.len(),
{
    if docs.len() == 0 {
        assert(pending + docs =~= pending);
        assert(Seq::<Seq<Doc>>::empty().flatten() =~= Seq::<Doc>::empty());
        assert(Seq::<Doc>::empty() + pending =~= pending);
    } else {
        let all = pending.push(docs[0]);
        let tail = docs.drop_first();
        assert(pending + docs =~= all + tail);
        if all.len() >= size {
            law_batches_keep_documents(Seq::empty(), tail, size);
            let (bs, left) = feed(Seq::empty(), tail, size);
            let whole = seq![all] + bs;
            assert(whole.first() == all);
            assert(whole.drop_first() =~= bs);
            assert(whole.flatten() == all + bs.flatten());
            assert(Seq::<Doc>::empty() + tail =~= tail);
            assert(all + bs.flatten() + left =~= all + (bs.flatten() + left));
            assert forall|i: int| 0 <= i < whole.len() implies (#[trigger] whole[i]).len() == size by {
                if i > 0 {
                    assert(whole[i] == bs[i - 1]);
                }
            }
        } else {
            law_batches_keep_documents(all, tail, size);
        }
    }
}

} // verus!

//! Batching and response handling for the text-embedding service.

use vstd::prelude::*;
use crate::text::{concat_str, numeral, numeral_string};

verus! {

/// Base address of the embedding service.
pub const HF_API_BASE: &'static str = "https://api-inference.huggingface.co";

/// Model used where the caller names none.
pub const DEFAULT_MODEL: &'static str = "sentence-transformers/all-MiniLM-L6-v2";

/// Texts sent in one request.
pub const BATCH_SIZE: usize = 16;

/// The address of a model: `{base}/models/{model}`.
pub open spec fn model_url_text(model: Seq<char>) -> Seq<char> {
    HF_API_BASE@ + "/models/"@ + model
}

/// The address to post a batch to, for the named model or the default one.
pub fn model_url(model: Option<&str>) -> (r: String)
    ensures
        r@ == model_url_text(
            match model {
                Some(m) => m@,
                None => DEFAULT_MODEL@,
            },
        ),
{
    let model_id = match model {
        Some(m) => m,
        None => DEFAULT_MODEL,
    };
    let head = concat_str(HF_API_BASE, "/models/");
    concat_str(head.as_str(), model_id)
}

/// The `Authorization` header value for a token.
pub fn bearer_header(token: &str) -> (r: String)
    ensures
        r@ == "Bearer "@ + token@,
{
    concat_str("Bearer ", token)
}

/// Whether an HTTP status reports success (2xx).
pub fn is_success_status(code: u16) -> (r: bool)
    ensures
        r == (200 <= code < 300),
{
    200 <= code && code < 300
}

/// The error for a refused batch: `HF API error {status}: {body}`.
pub fn api_error_message(code: u16, body: &str) -> (r: String)
    ensures
        r@ == "HF API error "@ + numeral(code as nat, 10) + ": "@ + body@,
{
    let status = numeral_string(code as u128, 10);
    let a = concat_str("HF API error ", status.as_str());
    let b = concat_str(a.as_str(), ": ");
    concat_str(b.as_str(), body)
}

/// The outline of a response body: what the embeddings are read from.
#[derive(Debug, Clone, Copy, PartialEq, Eq, Structural)]
pub enum ResponseShape {
    /// A JSON array.
    Array,
    /// A JSON object, with or without the fields that can hold embeddings.
    Object { has_embeddings: bool, has_output: bool },
    /// Any other JSON value.
    Other,
}

/// Where the embeddings of a response are.
#[derive(Debug, Clone, Copy, PartialEq, Eq, Structural)]
pub enum EmbeddingSource {
    /// Each element of the array is one embedding.
    Elements,
    /// The `embeddings` field of the object.
    EmbeddingsField,
    /// The `output` field of the object.
    OutputField,
}

/// Where to read embeddings from, by the outline of the response; an
/// object prefers `embeddings` to `output`.
pub fn embedding_source(shape: ResponseShape) -> (r: Result<EmbeddingSource, String>)
    ensures
        shape is Array ==> r == Ok::<EmbeddingSource, String>(EmbeddingSource::Elements),
        shape matches ResponseShape::Object { has_embeddings, has_output } ==> {
            if has_embeddings {
                r == Ok::<EmbeddingSource, String>(EmbeddingSource::EmbeddingsField)
            } else if has_output {
                r == Ok::<EmbeddingSource, String>(EmbeddingSource::OutputField)
            } else {
                (r matches Err(m) && m@ == "Unknown HF response format"@)
            }
        },
        shape is Other ==> (r matches Err(m) && m@ == "HF response not array or object"@),
{
    match shape {
        ResponseShape::Array => Ok(EmbeddingSource::Elements),
        ResponseShape::Object { has_embeddings, has_output } => {
            if has_embeddings {
                Ok(EmbeddingSource::EmbeddingsField)
            } else if has_output {
                Ok(EmbeddingSource::OutputField)
            } else {
                Err("Unknown HF response format".to_owned())
            }
        },
        ResponseShape::Other => Err("HF response not array or object".to_owned()),
    }
}

/// The step at which reading a response failed.
#[derive(Debug, Clone, Copy, PartialEq, Eq, Structural)]
pub enum ReadStage {
    /// The body is not JSON.
    Body,
    /// An array element is not an embedding.
    Element,
    /// The `embeddings` field is not a list of embeddings.
    EmbeddingsField,
    /// The `output` field is not a list of embeddings.
    OutputField,
}

/// The prefix that names a stage in an error message.
pub open spec fn stage_prefix(stage: ReadStage) -> Seq<char> {
    match stage {
        ReadStage::Body => "Parse HF response: "@,
        ReadStage::Element => "Embedding format: "@,
        ReadStage::EmbeddingsField => "Embeddings field: "@,
        ReadStage::OutputField => "Output field: "@,
    }
}

/// The stage at which the embeddings from a source are read.
pub fn source_stage(source: EmbeddingSource) -> (r: ReadStage)
    ensures
        source is Elements ==> r is Element,
        source is EmbeddingsField ==> r is EmbeddingsField,
        source is OutputField ==> r is OutputField,
{
    match source {
        EmbeddingSource::Elements => ReadStage::Element,
        EmbeddingSource::EmbeddingsField => ReadStage::EmbeddingsField,
        EmbeddingSource::OutputField => ReadStage::OutputField,
    }
}

/// The error for a response that could not be read at a stage.
pub fn read_error_message(stage: ReadStage, detail: &str) -> (r: String)
    ensures
        r@ == stage_prefix(stage) + detail@,
{
    let prefix = match stage {
        ReadStage::Body => "Parse HF response: ",
        ReadStage::Element => "Embedding format: ",
        ReadStage::EmbeddingsField => "Embeddings field: ",
        ReadStage::OutputField => "Output field: ",
    };
    concat_str(prefix, detail)
}

/// The end of the batch that starts at `start`.
pub open spec fn batch_end(total: nat, start: nat) -> nat {
    if start + BATCH_SIZE < total {
        start + BATCH_SIZE as nat
    } else {
        total
    }
}

/// Where the `k`-th batch starts.
pub open spec fn batch_start(total: nat, k: nat) -> nat {
    if k * BATCH_SIZE < total {
        k * (BATCH_SIZE as nat)
    } else {
        total
    }
}

/// Progress through the texts to embed, one batch at a time.
#[derive(Debug, Clone, Copy, PartialEq, Eq, Structural)]
pub struct EmbeddingBatches {
    /// How many texts there are.
    pub total: usize,
    /// Where the next batch starts.
    pub next: usize,
}

impl EmbeddingBatches {
    /// No batch sent yet.
    pub fn new(total: usize) -> (r: Self)
        ensures
            r.total == total,
            r.next == 0,
    {
        EmbeddingBatches { total, next: 0 }
    }

    /// The range of texts of the next batch, or `None` when all were sent
    /// (at once, where there are no texts).
    pub fn current(&self) -> (r: Option<(usize, usize)>)
        ensures
            self.next < self.total ==> r == Some(
                (self.next, batch_end(self.total as nat, self.next as nat) as usize),
            ),
            self.next >= self.total ==> r is None,
    {
        if self.next < self.total {
            let end = if self.total - self.next > BATCH_SIZE {
                self.next + BATCH_SIZE
            } else {
                self.total
            };
            Some((self.next, end))
        } else {
            None
        }
    }

    /// The current batch was answered: move past it.
    pub fn advance(&mut self)
        requires
            old(self).next < old(self).total,
        ensures
            final(self).total == old(self).total,
            final(self).next == batch_end(old(self).total as nat, old(self).next as nat),
    {
        if self.total - self.next > BATCH_SIZE {
            self.next = self.next + BATCH_SIZE;
        } else {
            self.next = self.total;
        }
    }
}

/// Batches follow each other without gap or overlap: the batch that starts
/// where the `k`-th starts ends where the next one starts, and every batch
/// but the end holds between one and `BATCH_SIZE` texts.  With the first
/// batch at 0, the batches cover all texts in order.
pub proof fn lemma_batches_tile(total: nat, k: nat)
    requires
        batch_start(total, k) < total,
    ensures
        batch_end(total, batch_start(total, k)) == batch_start(total, k + 1),
        batch_start(total, k) < batch_end(total, batch_start(total, k)),
        batch_end(total, batch_start(total, k)) <= batch_start(total, k) + BATCH_SIZE,
        batch_start(total, 0) == 0,
{
    assert((k + 1) * BATCH_SIZE == k * BATCH_SIZE + BATCH_SIZE);
}

} // verus!

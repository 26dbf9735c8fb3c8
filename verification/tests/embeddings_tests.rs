use colgrep_cloud::embeddings::{
    api_error_message, bearer_header, embedding_source, is_success_status, model_url,
    read_error_message, source_stage, EmbeddingBatches, EmbeddingSource, ReadStage,
    ResponseShape, BATCH_SIZE,
};

#[test]
fn model_addresses() {
    assert_eq!(
        model_url(None),
        "https://api-inference.huggingface.co/models/sentence-transformers/all-MiniLM-L6-v2"
    );
    assert_eq!(model_url(Some("org/m")), "https://api-inference.huggingface.co/models/org/m");
}

#[test]
fn headers_and_statuses() {
    assert_eq!(bearer_header("tok"), "Bearer tok");
    assert!(is_success_status(200));
    assert!(is_success_status(299));
    assert!(!is_success_status(199));
    assert!(!is_success_status(300));
    assert!(!is_success_status(503));
    assert_eq!(api_error_message(503, "busy"), "HF API error 503: busy");
    assert_eq!(api_error_message(404, ""), "HF API error 404: ");
}

#[test]
fn response_shapes() {
    assert_eq!(embedding_source(ResponseShape::Array), Ok(EmbeddingSource::Elements));
    assert_eq!(
        embedding_source(ResponseShape::Object { has_embeddings: true, has_output: true }),
        Ok(EmbeddingSource::EmbeddingsField)
    );
    assert_eq!(
        embedding_source(ResponseShape::Object { has_embeddings: false, has_output: true }),
        Ok(EmbeddingSource::OutputField)
    );
    assert_eq!(
        embedding_source(ResponseShape::Object { has_embeddings: false, has_output: false }),
        Err("Unknown HF response format".to_string())
    );
    assert_eq!(
        embedding_source(ResponseShape::Other),
        Err("HF response not array or object".to_string())
    );
}

#[test]
fn read_errors() {
    assert_eq!(read_error_message(ReadStage::Body, "eof"), "Parse HF response: eof");
    assert_eq!(read_error_message(ReadStage::Element, "x"), "Embedding format: x");
    assert_eq!(read_error_message(ReadStage::EmbeddingsField, "y"), "Embeddings field: y");
    assert_eq!(read_error_message(ReadStage::OutputField, "z"), "Output field: z");
    assert_eq!(source_stage(EmbeddingSource::Elements), ReadStage::Element);
    assert_eq!(source_stage(EmbeddingSource::OutputField), ReadStage::OutputField);
}

fn walk(total: usize) -> Vec<(usize, usize)> {
    let mut b = EmbeddingBatches::new(total);
    let mut out = vec![];
    while let Some(r) = b.current() {
        out.push(r);
        b.advance();
    }
    out
}

#[test]
fn batches_tile_the_texts() {
    assert_eq!(BATCH_SIZE, 16);
    assert_eq!(walk(0), vec![]);
    assert_eq!(walk(1), vec![(0, 1)]);
    assert_eq!(walk(16), vec![(0, 16)]);
    assert_eq!(walk(33), vec![(0, 16), (16, 32), (32, 33)]);
}

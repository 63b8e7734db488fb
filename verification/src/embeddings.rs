//! Text embeddings: errors and vector shaping.
use vstd::prelude::*;

verus! {

/// Embedding errors
#[derive(Debug)]
pub enum EmbeddingError {
    InitFailed(String),
    EmptyInput,
    EmbedFailed(String),
    NoOutput,
}

/// The message of an embedding error.
pub open spec fn embedding_error_message(e: EmbeddingError) -> Seq<char> {
    match e {
        EmbeddingError::InitFailed(m) => "Failed to initialize embedding model: "@ + m@,
        EmbeddingError::EmptyInput => "Empty input text"@,
        EmbeddingError::EmbedFailed(m) => "Failed to generate embedding: "@ + m@,
        EmbeddingError::NoOutput => "No embedding output generated"@,
    }
}

impl EmbeddingError {
    /// The error message (what `Display` shows)
    pub fn to_string(&self) -> (s: String)
        ensures
            s@ == embedding_error_message(*self),
    {
        match self {
            EmbeddingError::InitFailed(m) => String::from_str(
                "Failed to initialize embedding model: ",
            ).concat(m.as_str()),
            EmbeddingError::EmptyInput => String::from_str("Empty input text"),
            EmbeddingError::EmbedFailed(m) => String::from_str(
                "Failed to generate embedding: ",
            ).concat(m.as_str()),
            EmbeddingError::NoOutput => String::from_str("No embedding output generated"),
        }
    }
}

/// Pad a vector with `fill` up to `target_dim` entries, or cut it down to
/// its first `target_dim` entries.
pub fn pad_to_dimension<T: Copy>(vector: Vec<T>, target_dim: usize, fill: T) -> (r: Vec<T>)
    ensures
        r@.len() == target_dim,
        forall|i: int|
            0 <= i < target_dim ==> r@[i] == (if i < vector@.len() {
                vector@[i]
            } else {
                fill
            }),
{
    let mut v = vector;
    if v.len() < target_dim {
        let ghost orig = v@;
        while v.len() < target_dim
            invariant
                orig.len() <= v@.len() <= target_dim,
                forall|i: int|
                    0 <= i < v@.len() ==> v@[i] == (if i < orig.len() {
                        orig[i]
                    } else {
                        fill
                    }),
            decreases target_dim - v.len(),
        {
            v.push(fill);
        }
    } else if v.len() > target_dim {
        v.truncate(target_dim);
    }
    v
}

} // verus!

use vstd::prelude::*;

verus! {

/// Every way a receive iteration can fail.
#[derive(Clone, Copy, Debug, PartialEq, Eq, Structural)]
pub enum ReceiveError {
    /// No secret key is known for the message's key hash.
    MissingKeyHash,
    /// A download and decrypt task ended abnormally.
    TaskPanicked,
    /// The access token could not be obtained.
    AccessToken,
    /// The pull request or its response stream failed.
    Pull,
    /// The download request did not complete.
    Download,
    /// The download answered with a non-success status.
    ErrorResponse,
    /// Reading the downloaded body failed.
    ReadBytes,
    /// The stream nonce could not be read from the head of the body.
    ReadNonce,
    /// The body ended before it could hold even a one-shot nonce.
    IncompleteDownload,
    /// Decryption failed.
    Decrypt,
    /// The plaintext was not a valid operation batch.
    Deserialization,
    /// The number of decoded operations differs from the declared one.
    OperationCountMismatch { declared: u32, decoded: usize },
    /// The operations could not be written to storage.
    Storage,
    /// The watermark file could not be encoded or decoded.
    WatermarkSerialization,
    /// The watermark file could not be read.
    WatermarkRead,
    /// The watermark file could not be written.
    WatermarkWrite,
}

} // verus!

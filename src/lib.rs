//! Demultiplexing of paired-end reads by cell barcode and multiseq tag.
//!
//! Reads are handed in as character sequences. A cell barcode and a UMI are
//! taken from fixed offsets of read 1, a tag from read 2; both barcodes are
//! matched against whitelists (exactly, or within a hamming tolerance), and
//! the distinct UMIs seen for each (barcode, tag) pair are counted.
pub mod sequence;
pub mod whitelist;
pub mod table;
pub mod demux;

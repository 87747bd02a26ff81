//! The shape of a torrent's metainfo, as a collaborator hands it over:
//! plain data, produced elsewhere and read here.

use vstd::prelude::*;

use crate::infohash::InfoHash;

verus! {

/// A torrent's metainfo: the info dictionary and its surrounding
/// descriptive fields.
#[derive(Debug)]
pub struct MetaInfo {
    pub info: Info,
    pub announce: String,
    pub announce_list: Vec<String>,
    pub creation_date: usize,
    pub comment: String,
    pub created_by: String,
    pub encoding: String,
}

/// The info dictionary: piece layout and the single- or multi-file
/// shape.
#[derive(Debug)]
pub struct Info {
    pub piece_length: usize,
    pub pieces: Vec<InfoHash>,
    pub private: bool,
    pub rest: InfoPart,
}

/// The part of the info dictionary that differs between a single-file
/// and a multi-file torrent.
#[derive(Debug)]
pub enum InfoPart {
    Single { name: String, length: usize, md5sum: Option<[u8; 32]> },
    Multi { name: String, files: Vec<FileInfo> },
}

/// One file of a multi-file torrent.
#[derive(Debug)]
pub struct FileInfo {
    pub length: usize,
    pub md5sum: Option<[u8; 32]>,
    pub path: String,
}

} // verus!

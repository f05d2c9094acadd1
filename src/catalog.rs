//! Records of the asset catalogs that the game client downloads.

use vstd::prelude::*;

verus! {

/// A patch manifest: the milestone, its version and the packs it ships.
#[derive(Debug, Default)]
pub struct Packing {
    pub milestone: String,
    pub patch_version: i64,
    pub full_patch_packs: Vec<Patch>,
    pub update_packs: Vec<Patch>,
}

/// One downloadable pack and the bundles in it.
#[derive(Debug, Default)]
pub struct Patch {
    pub pack_name: String,
    pub pack_size: i64,
    pub crc: i64,
    pub is_prologue: bool,
    pub is_split_download: bool,
    pub bundle_files: Vec<Asset>,
}

/// One bundle inside a pack.
#[derive(Debug, Default)]
pub struct Asset {
    pub name: String,
    pub size: i64,
    pub is_prologue: bool,
    pub crc: i64,
    pub is_split_download: bool,
}

/// A media file entry of the media catalog.
#[derive(Debug, Default)]
pub struct Media {
    pub path: String,
    pub file_name: String,
    pub bytes: i64,
    pub crc: i64,
    pub is_prologue: bool,
    pub is_split_download: bool,
    pub media_type: i32,
}

/// A table file entry of the table catalog.
#[derive(Debug, Default)]
pub struct Table {
    pub name: String,
    pub size: i64,
    pub crc: i64,
    pub is_in_build: bool,
    pub is_changed: bool,
    pub is_prologue: bool,
    pub is_split_download: bool,
    pub includes: Vec<String>,
}

} // verus!

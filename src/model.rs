use vstd::prelude::*;

verus! {

/// A node of a seller's product grouping.
#[derive(Debug, PartialEq, Eq)]
pub struct ProductGroup {
    pub group_id: i32,
    pub group_name: String,
    pub children: Option<Vec<ProductGroup>>,
}

/// Envelope of the photobank group listing.
#[derive(Debug, Clone, PartialEq, Eq)]
pub struct PhotobankGroupListResponse {
    pub alibaba_icbu_photobank_group_list_response: PhotobankGroupList,
    pub request_id: Option<String>,
    pub _trace_id_: Option<String>,
}

#[derive(Debug, Clone, PartialEq, Eq)]
pub struct PhotobankGroupList {
    pub groups: Vec<PhotoAlbumGroup>,
}

/// A photobank album group; `level1` marks its depth.
#[derive(Debug, Clone, PartialEq, Eq)]
pub struct PhotoAlbumGroup {
    pub name: String,
    pub id: i32,
    pub level1: i32,
}

impl PhotobankGroupListResponse {
    /// The groups, in the order the platform gave them.
    pub fn into_groups(self) -> (r: Vec<PhotoAlbumGroup>)
        ensures
            r == self.alibaba_icbu_photobank_group_list_response.groups,
    {
        self.alibaba_icbu_photobank_group_list_response.groups
    }
}

} // verus!

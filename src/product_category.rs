use vstd::prelude::*;

verus! {

/// Envelope of the category lookup.
#[derive(Debug, Clone, PartialEq, Eq)]
pub struct NewCategoryResponse {
    pub alibaba_icbu_category_get_new_response: NewCategoryGroup,
    pub request_id: Option<String>,
    pub _trace_id_: Option<String>,
}

#[derive(Debug, Clone, PartialEq, Eq)]
pub struct NewCategoryGroup {
    pub category: NewCategory,
}

/// A node of the category tree; `child_ids` and `parent_ids` are absent when
/// the platform sent an empty object.
#[derive(Debug, Clone, PartialEq, Eq)]
pub struct NewCategory {
    pub leaf_category: bool,
    pub cn_name: Option<String>,
    pub category_id: i32,
    pub level: i32,
    pub name: String,
    pub child_ids: Option<NewCategoryChildId>,
    pub parent_ids: Option<NewCategoryChildId>,
}

#[derive(Debug, Clone, PartialEq, Eq)]
pub struct NewCategoryChildId {
    pub number: Vec<String>,
}

/// Envelope of the category attribute lookup.
#[derive(Debug, Clone, PartialEq, Eq)]
pub struct CategoryAttributeGetResponse {
    pub alibaba_icbu_category_attribute_get_response: CategoryAttributeGroup,
}

/// The attribute schema of a category, with the trace data of the response.
#[derive(Debug, Clone, PartialEq, Eq)]
pub struct CategoryAttributeGroup {
    pub attributes: CategoryAttributes,
    pub request_id: Option<String>,
    pub _trace_id_: Option<String>,
}

#[derive(Debug, Clone, PartialEq, Eq)]
pub struct CategoryAttributes {
    pub attribute: Vec<CategoryAttribute>,
}

#[derive(Debug, Clone, PartialEq, Eq)]
pub struct CategoryAttribute {
    pub sku_attribute: bool,
    pub show_type: String,
    pub customize_image: bool,
    pub car_model: bool,
    pub value_type: String,
    pub customize_value: bool,
    pub attribute_values: Option<AttributeValues>,
    pub input_type: String,
    pub en_name: String,
    pub required: bool,
    pub attr_id: i32,
}

#[derive(Debug, Clone, PartialEq, Eq)]
pub struct AttributeValues {
    pub attribute_value: Vec<AttributeValue>,
}

#[derive(Debug, Clone, PartialEq, Eq)]
pub struct AttributeValue {
    pub sku_value: bool,
    pub attr_value_id: i32,
    pub en_name: String,
}

impl NewCategoryResponse {
    /// The category node carried by the response.
    pub fn into_category(self) -> (r: NewCategory)
        ensures
            r == self.alibaba_icbu_category_get_new_response.category,
    {
        self.alibaba_icbu_category_get_new_response.category
    }
}

impl CategoryAttributeGetResponse {
    /// The attribute group carried by the response.
    pub fn into_attribute_group(self) -> (r: CategoryAttributeGroup)
        ensures
            r == self.alibaba_icbu_category_attribute_get_response,
    {
        self.alibaba_icbu_category_attribute_get_response
    }
}

} // verus!

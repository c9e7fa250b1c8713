use vstd::prelude::*;

verus! {

/// Envelope of the country list.
#[derive(Debug, Clone, PartialEq, Eq)]
pub struct ProductCountryGetCountryListResponse {
    pub response: ProductCountryGetCountryList,
}

#[derive(Debug, Clone, PartialEq, Eq)]
pub struct ProductCountryGetCountryList {
    pub request_id: Option<String>,
    pub _trace_id_: Option<String>,
    pub biz_success: bool,
    pub trace_id: Option<String>,
    pub data: ProductCountryDto,
}

/// Countries grouped by continent, in the platform's order.
#[derive(Debug, Clone, PartialEq, Eq)]
pub struct ProductCountryDto {
    pub items: Vec<ProductCountryItem>,
}

#[derive(Debug, Clone, PartialEq, Eq)]
pub struct ProductCountryItem {
    pub continent_name: String,
    pub continent_code: String,
    pub countries: CountryList,
}

#[derive(Debug, Clone, PartialEq, Eq)]
pub struct CountryList {
    pub data: Vec<CountryItem>,
}

#[derive(Debug, Clone, PartialEq, Eq)]
pub struct CountryItem {
    pub country_code: String,
    pub country_name: String,
}

impl ProductCountryGetCountryListResponse {
    /// The continent and country lists carried by the response.
    pub fn into_countries(self) -> (r: ProductCountryDto)
        ensures
            r == self.response.data,
    {
        self.response.data
    }
}

} // verus!

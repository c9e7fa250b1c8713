use iop_client::client::IopError;
use iop_client::model::{PhotoAlbumGroup, PhotobankGroupList, PhotobankGroupListResponse};
use iop_client::product_category::{
    AttributeValues, CategoryAttributeGetResponse, CategoryAttributeGroup, CategoryAttributes,
    NewCategory, NewCategoryGroup, NewCategoryResponse,
};
use iop_client::product_country::{
    CountryItem, CountryList, ProductCountryDto, ProductCountryGetCountryList,
    ProductCountryGetCountryListResponse, ProductCountryItem,
};
use iop_client::product_group::{
    collect_children, empty_object_as_none, product_groups_of, ChildrenGroup, ChildrenGroupList,
    ProductGroupDetail, ProductGroupGetResponse, ProductGroupResponse, WireOptional,
};

#[test]
fn empty_object_and_null_are_absent() {
    assert_eq!(empty_object_as_none::<AttributeValues>(WireOptional::EmptyObject), Ok(None));
    assert_eq!(empty_object_as_none::<AttributeValues>(WireOptional::Null), Ok(None));
}

#[test]
fn populated_object_is_present() {
    let v = AttributeValues { attribute_value: vec![] };
    assert_eq!(empty_object_as_none(WireOptional::Object(v.clone())), Ok(Some(v)));
}

#[test]
fn other_shapes_are_rejected() {
    assert_eq!(
        empty_object_as_none::<AttributeValues>(WireOptional::Other),
        Err(IopError::DeserializationError)
    );
}

fn child(id: &str, name: &str) -> ChildrenGroup {
    ChildrenGroup { group_id: id.to_string(), group_name: name.to_string() }
}

fn response(children: Option<Vec<ChildrenGroup>>) -> ProductGroupResponse {
    ProductGroupResponse {
        alibaba_icbu_product_group_get_response: ProductGroupGetResponse {
            product_group: ProductGroupDetail {
                group_id: 1,
                group_name: Some("root".to_string()),
                children_id_list: None,
                parent_id: None,
                children_group: children.map(|c| ChildrenGroupList { java_util_list: c }),
                parent_id2: None,
            },
        },
        request_id: None,
        _trace_id_: None,
    }
}

#[test]
fn bad_group_id_is_skipped() {
    let groups = product_groups_of(response(Some(vec![child("10", "a"), child("x1", "bad"), child("-20", "c")])));
    assert_eq!(groups.len(), 2);
    assert_eq!((groups[0].group_id, groups[0].group_name.as_str()), (10, "a"));
    assert_eq!((groups[1].group_id, groups[1].group_name.as_str()), (-20, "c"));
    assert!(groups.iter().all(|g| g.children.is_none()));
}

#[test]
fn group_id_parsing_edges() {
    let groups = collect_children(vec![
        child("+7", "plus"),
        child("", "empty"),
        child("-", "sign"),
        child("2147483647", "max"),
        child("2147483648", "over"),
        child(" 3", "space"),
    ]);
    let ids: Vec<i32> = groups.iter().map(|g| g.group_id).collect();
    assert_eq!(ids, vec![7, 2147483647]);
}

#[test]
fn absent_or_empty_children_give_no_groups() {
    assert!(product_groups_of(response(None)).is_empty());
    assert!(product_groups_of(response(Some(vec![]))).is_empty());
}

#[test]
fn country_list_keeps_order() {
    let item = |code: &str, name: &str| CountryItem { country_code: code.to_string(), country_name: name.to_string() };
    let resp = ProductCountryGetCountryListResponse {
        response: ProductCountryGetCountryList {
            request_id: None,
            _trace_id_: Some("t".to_string()),
            biz_success: true,
            trace_id: None,
            data: ProductCountryDto {
                items: vec![
                    ProductCountryItem {
                        continent_name: "Asia".to_string(),
                        continent_code: "AS".to_string(),
                        countries: CountryList { data: vec![item("CN", "China"), item("JP", "Japan")] },
                    },
                    ProductCountryItem {
                        continent_name: "Europe".to_string(),
                        continent_code: "EU".to_string(),
                        countries: CountryList { data: vec![item("FR", "France")] },
                    },
                ],
            },
        },
    };
    let dto = resp.into_countries();
    assert_eq!(dto.items.len(), 2);
    let codes: Vec<&str> = dto.items.iter().flat_map(|i| i.countries.data.iter()).map(|c| c.country_code.as_str()).collect();
    assert_eq!(codes, vec!["CN", "JP", "FR"]);
}

#[test]
fn envelopes_are_unwrapped() {
    let cat = NewCategory {
        leaf_category: true,
        cn_name: None,
        category_id: 5,
        level: 2,
        name: "Shoes".to_string(),
        child_ids: None,
        parent_ids: None,
    };
    let r = NewCategoryResponse {
        alibaba_icbu_category_get_new_response: NewCategoryGroup { category: cat.clone() },
        request_id: None,
        _trace_id_: None,
    };
    assert_eq!(r.into_category(), cat);
    let g = CategoryAttributeGroup {
        attributes: CategoryAttributes { attribute: vec![] },
        request_id: Some("r".to_string()),
        _trace_id_: None,
    };
    let r = CategoryAttributeGetResponse { alibaba_icbu_category_attribute_get_response: g.clone() };
    assert_eq!(r.into_attribute_group(), g);
    let groups = vec![PhotoAlbumGroup { name: "g".to_string(), id: 3, level1: 1 }];
    let r = PhotobankGroupListResponse {
        alibaba_icbu_photobank_group_list_response: PhotobankGroupList { groups: groups.clone() },
        request_id: None,
        _trace_id_: None,
    };
    assert_eq!(r.into_groups(), groups);
}

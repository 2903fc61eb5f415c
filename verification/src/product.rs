//! Product data from the remote lookup service, as the form pre-fill
//! consumes it. The lookup itself is an external collaborator; the library
//! receives the record as plain values.

use vstd::prelude::*;

verus! {

/// Product description containing both brief and detailed descriptions.
#[derive(Debug)]
pub struct ProductDescription {
    pub product_description: String,
    pub detailed_description: String,
}

/// Manufacturer information.
#[derive(Debug)]
pub struct Manufacturer {
    pub name: String,
}

/// Product category with support for nested subcategories.
#[derive(Debug)]
pub struct Category {
    pub name: String,
    pub child_categories: Vec<Option<Category>>,
}

/// Product variation information including stock and ordering details.
#[derive(Debug)]
pub struct ProductVariation {
    pub digikey_product_number: String,
    pub market_place: bool,
    pub qty_available_for_package_type: u32,
    pub minimum_order_qty: u32,
}

/// Technical parameter and its value.
#[derive(Debug)]
pub struct Parameter {
    pub parameter_text: String,
    pub parameter_value: String,
}

/// Product lifecycle status information.
#[derive(Debug)]
pub struct ProductStatus {
    pub status: String,
}

/// The product record the remote lookup yields, as the form uses it.
#[derive(Debug)]
pub struct ProductInfo {
    pub search_spn: Option<String>,
    pub description: ProductDescription,
    pub manufacturer: Manufacturer,
    pub manufacturer_product_number: String,
    pub datasheet_url: Option<String>,
    pub product_variations: Vec<ProductVariation>,
    pub normally_stocking: bool,
    pub discontinued: bool,
    pub end_of_life: bool,
    pub parameters: Vec<Parameter>,
    pub quantity_available: u32,
    pub product_status: ProductStatus,
    pub category: Category,
}

} // verus!

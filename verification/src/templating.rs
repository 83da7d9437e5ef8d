//! The argument structures the code generator fills when it presses the
//! per-component glue templates: property registration for primitives and
//! types, the coproduct library, and the root component macro.

use vstd::prelude::*;

verus! {

/// Arguments for pressing the primitive-macro template.
pub struct TemplateArgsMacroPaxPrimitive {
    pub pascal_identifier: String,
    pub original_tokens: String,
    /// Used to generate property-manifest calls, which let the parser
    /// reflect over the primitive's properties.
    pub compile_time_property_definitions: Vec<CompileTimePropertyDefinition>,
}

/// Arguments for pressing the type-macro template.
pub struct TemplateArgsMacroPaxType {
    pub pascal_identifier: String,
    pub original_tokens: String,
}

/// One property the compiler knows about at build time.
pub struct CompileTimePropertyDefinition {
    pub scoped_resolvable_types: Vec<String>,
    pub field_name: String,
    pub original_type: String,
}

/// Arguments for generating the properties-coproduct library: pairs of
/// variant name and fully qualified type path.
pub struct TemplateArgsCodegenPropertiesCoproductLib {
    pub properties_coproduct_tuples: Vec<(String, String)>,
    pub types_coproduct_tuples: Vec<(String, String)>,
}

/// Arguments for pressing the root component macro template.
pub struct TemplateArgsMacroPax {
    pub raw_pax: String,
    pub pascal_identifier: String,
    pub original_tokens: String,
    pub is_root: bool,
    pub template_dependencies: Vec<String>,
    pub compile_time_property_definitions: Vec<CompileTimePropertyDefinition>,
}

} // verus!

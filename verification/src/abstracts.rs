//! The abstract objects that the evaluation engine gives a meaning to.

use vstd::prelude::*;

verus! {

/// Denotes that the subject is a set that contains the associated value.
pub const CONTAINS: u128 = 2148623885993955829985846061169569945;
/// Denotes that the subject can be used as a tag stating truth; the value is
/// called on the subject and value of each association with that tag.
pub const AXIOMATIC: u128 = 2148623894085078740305997247889559475;
/// Denotes the function body of a function.
pub const FUNCTION: u128 = 2148623901005465698003044719488417081;
/// The subject slot of a statement.
pub const STATEMENT_SUBJECT: u128 = 2148623909053123893672709737372288428;
/// The tag slot of a statement.
pub const STATEMENT_TAG: u128 = 2148623916651203732644414190007253763;
/// The value slot of a statement.
pub const STATEMENT_VALUE: u128 = 2148623924076051576854508924514462036;
/// A function that checks if the input object is knowledge.
pub const KNOWLEDGE: u128 = 2148623940012028447614031237706438049;
/// A node whose value is its literal operand.
pub const NODE_LITERAL: u128 = 2148623946948209931514052368378168923;
pub const NODE_AND_LEFT: u128 = 2148623952614130968570357528352754483;
pub const NODE_AND_RIGHT: u128 = 2150546484857217536175129940420364334;
pub const NODE_PARAMETER: u128 = 2148623964016728126166347458070520202;
pub const NODE_COUNT: u128 = 2148623971839749022702961541901456532;
pub const NODE_QUERY: u128 = 2148623977746529761395662089576479852;
pub const NODE_EQUAL_LEFT: u128 = 2148623984105467336671475554302291443;
pub const NODE_EQUAL_RIGHT: u128 = 2150546540588687321716707989954282134;
pub const NODE_OR_LEFT: u128 = 2148623991617605004082324671379584752;
pub const NODE_OR_RIGHT: u128 = 2150546471301176810351954476414010805;
pub const NODE_XOR_LEFT: u128 = 2148623998771243099015849175301884477;
pub const NODE_XOR_RIGHT: u128 = 2150546556818362149014272809860190195;
pub const NODE_NOT: u128 = 2148624004488096373987985726200830300;
pub const NODE_FUNCTION_SELF: u128 = 2148624013653182105587583289980365332;
pub const NODE_ADD_LEFT: u128 = 2148566534810416742677953060919673357;
pub const NODE_ADD_RIGHT: u128 = 2148566534810416742677953060919673358;
pub const NODE_UNION_LEFT: u128 = 2150602665196451232518504136866676495;
pub const NODE_UNION_RIGHT: u128 = 2150602676477464422271577313769115263;
pub const NODE_MAP_SET: u128 = 2150755705084816915741037497738372617;
pub const NODE_MAP_MAPPER: u128 = 2150755713297709286586583523030939076;
pub const NODE_FILTER_SET: u128 = 2150755714608308122129968313720999578;
pub const NODE_FILTER_FILTER: u128 = 2150755715328094057860222292607728283;
pub const NODE_LESS_LEFT: u128 = 2150755802916608365774567517427204904;
pub const NODE_LESS_RIGHT: u128 = 2150755809462832010701281576784730955;
pub const NODE_IF_CONDITION: u128 = 2150756911395278548780220055702389669;
pub const NODE_IF_THEN: u128 = 2150756911395360151235546653103149781;
pub const NODE_IF_ELSE: u128 = 2150756911395636855407117245584275797;
pub const NODE_UNWRAP_OR_SET: u128 = 2150860435707265317782695126754608091;
pub const NODE_UNWRAP_OR_DEFAULT: u128 = 2150860435707466294816983480346985929;
pub const NODE_MULTIPLY_LEFT: u128 = 2150955291898078111384483788783842606;
pub const NODE_MULTIPLY_RIGHT: u128 = 2150955291897679523990373018161137292;
pub const NODE_CALL_CALLEE: u128 = 2150967257692765401288058191156339282;
pub const NODE_CALL_WITH: u128 = 2150967257692538503396115970645049110;
/// A node that resolves to the knowledge structure.
pub const NODE_KNOWLEDGE: u128 = 2151276264541937640181087051018499973;
/// Denotes that a computation arithmetically overflowed.
pub const ARITHMETIC_OVERFLOW: u128 = 2150546596946485525298114723305118383;
/// Denotes that the result of a computation is undefined for the given
/// inputs.
pub const UNDEFINED: u128 = 2150546603789477801977750950892561896;
/// The subject slot of a query node.
pub const NODE_QUERY_SUBJECT: u128 = 27;
/// The tag slot of a query node.
pub const NODE_QUERY_TAG: u128 = 28;
/// The value slot of a query node.
pub const NODE_QUERY_VALUE: u128 = 29;
/// The node that evaluates to the set of all statements.
pub const NODE_STATEMENTS: u128 = 30;
/// A node that checks whether its operand is abstract.
pub const NODE_IS_ABSTRACT: u128 = 31;
/// The set and predicate slots of a node that checks every item of a set.
pub const NODE_EVERY_SET: u128 = 32;
pub const NODE_EVERY_PREDICATE: u128 = 33;
/// The set and predicate slots of a node that checks for any matching item of a set.
pub const NODE_ANY_SET: u128 = 34;
pub const NODE_ANY_PREDICATE: u128 = 35;
/// The bit values.
pub const BIT_0: u128 = 36;
pub const BIT_1: u128 = 37;
/// The slots of a byte.
pub const BIT_SLOT_0: u128 = 38;
pub const BIT_SLOT_1: u128 = 39;
pub const BIT_SLOT_2: u128 = 40;
pub const BIT_SLOT_3: u128 = 41;
pub const BIT_SLOT_4: u128 = 42;
pub const BIT_SLOT_5: u128 = 43;
pub const BIT_SLOT_6: u128 = 44;
pub const BIT_SLOT_7: u128 = 45;
/// The code point of a character.
pub const CODE_POINT: u128 = 46;
/// The item and tail slots of a list.
pub const LIST_ITEM: u128 = 47;
pub const LIST_TAIL: u128 = 48;

} // verus!

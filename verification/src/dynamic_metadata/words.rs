//! The fixed words this contract compares with or records.
use vstd::prelude::*;

verus! {

/// The bytes of "mint".
pub open spec fn lit_mint() -> Seq<u8> {
    seq![109, 105, 110, 116]
}

/// The bytes of "mint".
pub fn bytes_mint() -> (r: Vec<u8>)
    ensures
        r@ == lit_mint(),
{
    vec![109, 105, 110, 116]
}

/// The bytes of "transfer".
pub open spec fn lit_transfer() -> Seq<u8> {
    seq![116, 114, 97, 110, 115, 102, 101, 114]
}

/// The bytes of "transfer".
pub fn bytes_transfer() -> (r: Vec<u8>)
    ensures
        r@ == lit_transfer(),
{
    vec![116, 114, 97, 110, 115, 102, 101, 114]
}

/// The bytes of "burn".
pub open spec fn lit_burn() -> Seq<u8> {
    seq![98, 117, 114, 110]
}

/// The bytes of "burn".
pub fn bytes_burn() -> (r: Vec<u8>)
    ensures
        r@ == lit_burn(),
{
    vec![98, 117, 114, 110]
}

/// The bytes of "update".
pub open spec fn lit_update() -> Seq<u8> {
    seq![117, 112, 100, 97, 116, 101]
}

/// The bytes of "update".
pub fn bytes_update() -> (r: Vec<u8>)
    ensures
        r@ == lit_update(),
{
    vec![117, 112, 100, 97, 116, 101]
}

/// The bytes of "add_string_trait".
pub open spec fn lit_add_string_trait() -> Seq<u8> {
    seq![97, 100, 100, 95, 115, 116, 114, 105, 110, 103, 95, 116, 114, 97, 105, 116]
}

/// The bytes of "add_string_trait".
pub fn bytes_add_string_trait() -> (r: Vec<u8>)
    ensures
        r@ == lit_add_string_trait(),
{
    vec![97, 100, 100, 95, 115, 116, 114, 105, 110, 103, 95, 116, 114, 97, 105, 116]
}

/// The bytes of "remove_string_trait".
pub open spec fn lit_remove_string_trait() -> Seq<u8> {
    seq![114, 101, 109, 111, 118, 101, 95, 115, 116, 114, 105, 110, 103, 95, 116, 114, 97, 105, 116]
}

/// The bytes of "remove_string_trait".
pub fn bytes_remove_string_trait() -> (r: Vec<u8>)
    ensures
        r@ == lit_remove_string_trait(),
{
    vec![114, 101, 109, 111, 118, 101, 95, 115, 116, 114, 105, 110, 103, 95, 116, 114, 97, 105, 116]
}

/// The bytes of "add_numeric_trait".
pub open spec fn lit_add_numeric_trait() -> Seq<u8> {
    seq![97, 100, 100, 95, 110, 117, 109, 101, 114, 105, 99, 95, 116, 114, 97, 105, 116]
}

/// The bytes of "add_numeric_trait".
pub fn bytes_add_numeric_trait() -> (r: Vec<u8>)
    ensures
        r@ == lit_add_numeric_trait(),
{
    vec![97, 100, 100, 95, 110, 117, 109, 101, 114, 105, 99, 95, 116, 114, 97, 105, 116]
}

/// The bytes of "increment_numeric_trait".
pub open spec fn lit_increment_numeric_trait() -> Seq<u8> {
    seq![105, 110, 99, 114, 101, 109, 101, 110, 116, 95, 110, 117, 109, 101, 114, 105, 99, 95, 116, 114, 97, 105, 116]
}

/// The bytes of "increment_numeric_trait".
pub fn bytes_increment_numeric_trait() -> (r: Vec<u8>)
    ensures
        r@ == lit_increment_numeric_trait(),
{
    vec![105, 110, 99, 114, 101, 109, 101, 110, 116, 95, 110, 117, 109, 101, 114, 105, 99, 95, 116, 114, 97, 105, 116]
}

/// The bytes of "evolve_traits".
pub open spec fn lit_evolve_traits() -> Seq<u8> {
    seq![101, 118, 111, 108, 118, 101, 95, 116, 114, 97, 105, 116, 115]
}

/// The bytes of "evolve_traits".
pub fn bytes_evolve_traits() -> (r: Vec<u8>)
    ensures
        r@ == lit_evolve_traits(),
{
    vec![101, 118, 111, 108, 118, 101, 95, 116, 114, 97, 105, 116, 115]
}

/// The bytes of "trigger_apply".
pub open spec fn lit_trigger_apply() -> Seq<u8> {
    seq![116, 114, 105, 103, 103, 101, 114, 95, 97, 112, 112, 108, 121]
}

/// The bytes of "trigger_apply".
pub fn bytes_trigger_apply() -> (r: Vec<u8>)
    ensures
        r@ == lit_trigger_apply(),
{
    vec![116, 114, 105, 103, 103, 101, 114, 95, 97, 112, 112, 108, 121]
}

/// The bytes of "freeze".
pub open spec fn lit_freeze() -> Seq<u8> {
    seq![102, 114, 101, 101, 122, 101]
}

/// The bytes of "freeze".
pub fn bytes_freeze() -> (r: Vec<u8>)
    ensures
        r@ == lit_freeze(),
{
    vec![102, 114, 101, 101, 122, 101]
}

/// The bytes of "unfreeze".
pub open spec fn lit_unfreeze() -> Seq<u8> {
    seq![117, 110, 102, 114, 101, 101, 122, 101]
}

/// The bytes of "unfreeze".
pub fn bytes_unfreeze() -> (r: Vec<u8>)
    ensures
        r@ == lit_unfreeze(),
{
    vec![117, 110, 102, 114, 101, 101, 122, 101]
}

/// The bytes of "migrate".
pub open spec fn lit_migrate() -> Seq<u8> {
    seq![109, 105, 103, 114, 97, 116, 101]
}

/// The bytes of "migrate".
pub fn bytes_migrate() -> (r: Vec<u8>)
    ensures
        r@ == lit_migrate(),
{
    vec![109, 105, 103, 114, 97, 116, 101]
}

/// The bytes of "metric".
pub open spec fn lit_metric() -> Seq<u8> {
    seq![109, 101, 116, 114, 105, 99]
}

/// The bytes of "metric".
pub fn bytes_metric() -> (r: Vec<u8>)
    ensures
        r@ == lit_metric(),
{
    vec![109, 101, 116, 114, 105, 99]
}

/// The bytes of "ownership_count".
pub open spec fn lit_ownership_count() -> Seq<u8> {
    seq![111, 119, 110, 101, 114, 115, 104, 105, 112, 95, 99, 111, 117, 110, 116]
}

/// The bytes of "ownership_count".
pub fn bytes_ownership_count() -> (r: Vec<u8>)
    ensures
        r@ == lit_ownership_count(),
{
    vec![111, 119, 110, 101, 114, 115, 104, 105, 112, 95, 99, 111, 117, 110, 116]
}

/// The bytes of "time".
pub open spec fn lit_time() -> Seq<u8> {
    seq![116, 105, 109, 101]
}

/// The bytes of "time".
pub fn bytes_time() -> (r: Vec<u8>)
    ensures
        r@ == lit_time(),
{
    vec![116, 105, 109, 101]
}

/// The bytes of "add_trait".
pub open spec fn lit_add_trait() -> Seq<u8> {
    seq![97, 100, 100, 95, 116, 114, 97, 105, 116]
}

/// The bytes of "add_trait".
pub fn bytes_add_trait() -> (r: Vec<u8>)
    ensures
        r@ == lit_add_trait(),
{
    vec![97, 100, 100, 95, 116, 114, 97, 105, 116]
}

/// The bytes of "bump_level".
pub open spec fn lit_bump_level() -> Seq<u8> {
    seq![98, 117, 109, 112, 95, 108, 101, 118, 101, 108]
}

/// The bytes of "bump_level".
pub fn bytes_bump_level() -> (r: Vec<u8>)
    ensures
        r@ == lit_bump_level(),
{
    vec![98, 117, 109, 112, 95, 108, 101, 118, 101, 108]
}
} // verus!

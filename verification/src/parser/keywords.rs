//! The keywords and operators of the language, as bytes.
use vstd::prelude::*;

verus! {

/// The bytes of `fn`.
pub open spec fn lit_fn() -> Seq<u8> {
    seq![102u8, 110u8]
}

/// The bytes of `fn`, to compare with.
pub fn kw_fn() -> (r: [u8; 2])
    ensures
        r@ == lit_fn(),
{
    let r: [u8; 2] = [102u8, 110u8];
    assert(r@ =~= lit_fn());
    r
}

/// The bytes of `if`.
pub open spec fn lit_if() -> Seq<u8> {
    seq![105u8, 102u8]
}

/// The bytes of `if`, to compare with.
pub fn kw_if() -> (r: [u8; 2])
    ensures
        r@ == lit_if(),
{
    let r: [u8; 2] = [105u8, 102u8];
    assert(r@ =~= lit_if());
    r
}

/// The bytes of `elif`.
pub open spec fn lit_elif() -> Seq<u8> {
    seq![101u8, 108u8, 105u8, 102u8]
}

/// The bytes of `elif`, to compare with.
pub fn kw_elif() -> (r: [u8; 4])
    ensures
        r@ == lit_elif(),
{
    let r: [u8; 4] = [101u8, 108u8, 105u8, 102u8];
    assert(r@ =~= lit_elif());
    r
}

/// The bytes of `else`.
pub open spec fn lit_else() -> Seq<u8> {
    seq![101u8, 108u8, 115u8, 101u8]
}

/// The bytes of `else`, to compare with.
pub fn kw_else() -> (r: [u8; 4])
    ensures
        r@ == lit_else(),
{
    let r: [u8; 4] = [101u8, 108u8, 115u8, 101u8];
    assert(r@ =~= lit_else());
    r
}

/// The bytes of `match`.
pub open spec fn lit_match() -> Seq<u8> {
    seq![109u8, 97u8, 116u8, 99u8, 104u8]
}

/// The bytes of `match`, to compare with.
pub fn kw_match() -> (r: [u8; 5])
    ensures
        r@ == lit_match(),
{
    let r: [u8; 5] = [109u8, 97u8, 116u8, 99u8, 104u8];
    assert(r@ =~= lit_match());
    r
}

/// The bytes of `for`.
pub open spec fn lit_for() -> Seq<u8> {
    seq![102u8, 111u8, 114u8]
}

/// The bytes of `for`, to compare with.
pub fn kw_for() -> (r: [u8; 3])
    ensures
        r@ == lit_for(),
{
    let r: [u8; 3] = [102u8, 111u8, 114u8];
    assert(r@ =~= lit_for());
    r
}

/// The bytes of `<-`.
pub open spec fn lit_larrow() -> Seq<u8> {
    seq![60u8, 45u8]
}

/// The bytes of `<-`, to compare with.
pub fn kw_larrow() -> (r: [u8; 2])
    ensures
        r@ == lit_larrow(),
{
    let r: [u8; 2] = [60u8, 45u8];
    assert(r@ =~= lit_larrow());
    r
}

/// The bytes of `#{`.
pub open spec fn lit_hash_brace() -> Seq<u8> {
    seq![35u8, 123u8]
}

/// The bytes of `#{`, to compare with.
pub fn kw_hash_brace() -> (r: [u8; 2])
    ensures
        r@ == lit_hash_brace(),
{
    let r: [u8; 2] = [35u8, 123u8];
    assert(r@ =~= lit_hash_brace());
    r
}

/// The bytes of `bind`.
pub open spec fn lit_bind() -> Seq<u8> {
    seq![98u8, 105u8, 110u8, 100u8]
}

/// The bytes of `bind`, to compare with.
pub fn kw_bind() -> (r: [u8; 4])
    ensures
        r@ == lit_bind(),
{
    let r: [u8; 4] = [98u8, 105u8, 110u8, 100u8];
    assert(r@ =~= lit_bind());
    r
}

/// The bytes of `with`.
pub open spec fn lit_with() -> Seq<u8> {
    seq![119u8, 105u8, 116u8, 104u8]
}

/// The bytes of `with`, to compare with.
pub fn kw_with() -> (r: [u8; 4])
    ensures
        r@ == lit_with(),
{
    let r: [u8; 4] = [119u8, 105u8, 116u8, 104u8];
    assert(r@ =~= lit_with());
    r
}

/// The bytes of `effect`.
pub open spec fn lit_effect() -> Seq<u8> {
    seq![101u8, 102u8, 102u8, 101u8, 99u8, 116u8]
}

/// The bytes of `effect`, to compare with.
pub fn kw_effect() -> (r: [u8; 6])
    ensures
        r@ == lit_effect(),
{
    let r: [u8; 6] = [101u8, 102u8, 102u8, 101u8, 99u8, 116u8];
    assert(r@ =~= lit_effect());
    r
}

/// The bytes of `=>`.
pub open spec fn lit_fat_arrow() -> Seq<u8> {
    seq![61u8, 62u8]
}

/// The bytes of `=>`, to compare with.
pub fn kw_fat_arrow() -> (r: [u8; 2])
    ensures
        r@ == lit_fat_arrow(),
{
    let r: [u8; 2] = [61u8, 62u8];
    assert(r@ =~= lit_fat_arrow());
    r
}

/// The bytes of `=`.
pub open spec fn lit_eq() -> Seq<u8> {
    seq![61u8]
}

/// The bytes of `=`, to compare with.
pub fn kw_eq() -> (r: [u8; 1])
    ensures
        r@ == lit_eq(),
{
    let r: [u8; 1] = [61u8];
    assert(r@ =~= lit_eq());
    r
}

/// The bytes of `==`.
pub open spec fn lit_eqeq() -> Seq<u8> {
    seq![61u8, 61u8]
}

/// The bytes of `==`, to compare with.
pub fn kw_eqeq() -> (r: [u8; 2])
    ensures
        r@ == lit_eqeq(),
{
    let r: [u8; 2] = [61u8, 61u8];
    assert(r@ =~= lit_eqeq());
    r
}

/// The bytes of `!=`.
pub open spec fn lit_ne() -> Seq<u8> {
    seq![33u8, 61u8]
}

/// The bytes of `!=`, to compare with.
pub fn kw_ne() -> (r: [u8; 2])
    ensures
        r@ == lit_ne(),
{
    let r: [u8; 2] = [33u8, 61u8];
    assert(r@ =~= lit_ne());
    r
}

/// The bytes of `<=`.
pub open spec fn lit_le() -> Seq<u8> {
    seq![60u8, 61u8]
}

/// The bytes of `<=`, to compare with.
pub fn kw_le() -> (r: [u8; 2])
    ensures
        r@ == lit_le(),
{
    let r: [u8; 2] = [60u8, 61u8];
    assert(r@ =~= lit_le());
    r
}

/// The bytes of `>=`.
pub open spec fn lit_ge() -> Seq<u8> {
    seq![62u8, 61u8]
}

/// The bytes of `>=`, to compare with.
pub fn kw_ge() -> (r: [u8; 2])
    ensures
        r@ == lit_ge(),
{
    let r: [u8; 2] = [62u8, 61u8];
    assert(r@ =~= lit_ge());
    r
}

/// The bytes of `<`.
pub open spec fn lit_lt() -> Seq<u8> {
    seq![60u8]
}

/// The bytes of `<`, to compare with.
pub fn kw_lt() -> (r: [u8; 1])
    ensures
        r@ == lit_lt(),
{
    let r: [u8; 1] = [60u8];
    assert(r@ =~= lit_lt());
    r
}

/// The bytes of `>`.
pub open spec fn lit_gt() -> Seq<u8> {
    seq![62u8]
}

/// The bytes of `>`, to compare with.
pub fn kw_gt() -> (r: [u8; 1])
    ensures
        r@ == lit_gt(),
{
    let r: [u8; 1] = [62u8];
    assert(r@ =~= lit_gt());
    r
}

/// The bytes of `&&`.
pub open spec fn lit_and() -> Seq<u8> {
    seq![38u8, 38u8]
}

/// The bytes of `&&`, to compare with.
pub fn kw_and() -> (r: [u8; 2])
    ensures
        r@ == lit_and(),
{
    let r: [u8; 2] = [38u8, 38u8];
    assert(r@ =~= lit_and());
    r
}

/// The bytes of `||`.
pub open spec fn lit_or() -> Seq<u8> {
    seq![124u8, 124u8]
}

/// The bytes of `||`, to compare with.
pub fn kw_or() -> (r: [u8; 2])
    ensures
        r@ == lit_or(),
{
    let r: [u8; 2] = [124u8, 124u8];
    assert(r@ =~= lit_or());
    r
}

/// The bytes of `return`.
pub open spec fn lit_return() -> Seq<u8> {
    seq![114u8, 101u8, 116u8, 117u8, 114u8, 110u8]
}

/// The bytes of `return`, to compare with.
pub fn kw_return() -> (r: [u8; 6])
    ensures
        r@ == lit_return(),
{
    let r: [u8; 6] = [114u8, 101u8, 116u8, 117u8, 114u8, 110u8];
    assert(r@ =~= lit_return());
    r
}

/// The bytes of `let`.
pub open spec fn lit_let() -> Seq<u8> {
    seq![108u8, 101u8, 116u8]
}

/// The bytes of `let`, to compare with.
pub fn kw_let() -> (r: [u8; 3])
    ensures
        r@ == lit_let(),
{
    let r: [u8; 3] = [108u8, 101u8, 116u8];
    assert(r@ =~= lit_let());
    r
}

/// The bytes of `var`.
pub open spec fn lit_var() -> Seq<u8> {
    seq![118u8, 97u8, 114u8]
}

/// The bytes of `var`, to compare with.
pub fn kw_var() -> (r: [u8; 3])
    ensures
        r@ == lit_var(),
{
    let r: [u8; 3] = [118u8, 97u8, 114u8];
    assert(r@ =~= lit_var());
    r
}

/// The bytes of `handler`.
pub open spec fn lit_handler() -> Seq<u8> {
    seq![104u8, 97u8, 110u8, 100u8, 108u8, 101u8, 114u8]
}

/// The bytes of `handler`, to compare with.
pub fn kw_handler() -> (r: [u8; 7])
    ensures
        r@ == lit_handler(),
{
    let r: [u8; 7] = [104u8, 97u8, 110u8, 100u8, 108u8, 101u8, 114u8];
    assert(r@ =~= lit_handler());
    r
}

/// The bytes of `type`.
pub open spec fn lit_type() -> Seq<u8> {
    seq![116u8, 121u8, 112u8, 101u8]
}

/// The bytes of `type`, to compare with.
pub fn kw_type() -> (r: [u8; 4])
    ensures
        r@ == lit_type(),
{
    let r: [u8; 4] = [116u8, 121u8, 112u8, 101u8];
    assert(r@ =~= lit_type());
    r
}

/// The bytes of `enum`.
pub open spec fn lit_enum() -> Seq<u8> {
    seq![101u8, 110u8, 117u8, 109u8]
}

/// The bytes of `enum`, to compare with.
pub fn kw_enum() -> (r: [u8; 4])
    ensures
        r@ == lit_enum(),
{
    let r: [u8; 4] = [101u8, 110u8, 117u8, 109u8];
    assert(r@ =~= lit_enum());
    r
}

/// The bytes of `trait`.
pub open spec fn lit_trait() -> Seq<u8> {
    seq![116u8, 114u8, 97u8, 105u8, 116u8]
}

/// The bytes of `trait`, to compare with.
pub fn kw_trait() -> (r: [u8; 5])
    ensures
        r@ == lit_trait(),
{
    let r: [u8; 5] = [116u8, 114u8, 97u8, 105u8, 116u8];
    assert(r@ =~= lit_trait());
    r
}

/// The bytes of `impl`.
pub open spec fn lit_impl() -> Seq<u8> {
    seq![105u8, 109u8, 112u8, 108u8]
}

/// The bytes of `impl`, to compare with.
pub fn kw_impl() -> (r: [u8; 4])
    ensures
        r@ == lit_impl(),
{
    let r: [u8; 4] = [105u8, 109u8, 112u8, 108u8];
    assert(r@ =~= lit_impl());
    r
}

/// The bytes of `module`.
pub open spec fn lit_module() -> Seq<u8> {
    seq![109u8, 111u8, 100u8, 117u8, 108u8, 101u8]
}

/// The bytes of `module`, to compare with.
pub fn kw_module() -> (r: [u8; 6])
    ensures
        r@ == lit_module(),
{
    let r: [u8; 6] = [109u8, 111u8, 100u8, 117u8, 108u8, 101u8];
    assert(r@ =~= lit_module());
    r
}

/// The bytes of `import`.
pub open spec fn lit_import() -> Seq<u8> {
    seq![105u8, 109u8, 112u8, 111u8, 114u8, 116u8]
}

/// The bytes of `import`, to compare with.
pub fn kw_import() -> (r: [u8; 6])
    ensures
        r@ == lit_import(),
{
    let r: [u8; 6] = [105u8, 109u8, 112u8, 111u8, 114u8, 116u8];
    assert(r@ =~= lit_import());
    r
}

/// The bytes of `export`.
pub open spec fn lit_export() -> Seq<u8> {
    seq![101u8, 120u8, 112u8, 111u8, 114u8, 116u8]
}

/// The bytes of `export`, to compare with.
pub fn kw_export() -> (r: [u8; 6])
    ensures
        r@ == lit_export(),
{
    let r: [u8; 6] = [101u8, 120u8, 112u8, 111u8, 114u8, 116u8];
    assert(r@ =~= lit_export());
    r
}

/// The bytes of `from`.
pub open spec fn lit_from() -> Seq<u8> {
    seq![102u8, 114u8, 111u8, 109u8]
}

/// The bytes of `from`, to compare with.
pub fn kw_from() -> (r: [u8; 4])
    ensures
        r@ == lit_from(),
{
    let r: [u8; 4] = [102u8, 114u8, 111u8, 109u8];
    assert(r@ =~= lit_from());
    r
}

/// The bytes of `as`.
pub open spec fn lit_as() -> Seq<u8> {
    seq![97u8, 115u8]
}

/// The bytes of `as`, to compare with.
pub fn kw_as() -> (r: [u8; 2])
    ensures
        r@ == lit_as(),
{
    let r: [u8; 2] = [97u8, 115u8];
    assert(r@ =~= lit_as());
    r
}

/// The bytes of `{`.
pub open spec fn lit_lbrace() -> Seq<u8> {
    seq![123u8]
}

/// The bytes of `{`, to compare with.
pub fn kw_lbrace() -> (r: [u8; 1])
    ensures
        r@ == lit_lbrace(),
{
    let r: [u8; 1] = [123u8];
    assert(r@ =~= lit_lbrace());
    r
}

} // verus!

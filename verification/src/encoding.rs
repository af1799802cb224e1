//! The outbound side of verification: one form field per candidate, each
//! carrying the candidate and its position in the batch.

use vstd::prelude::*;
use vstd::string::StringExecFns;
use crate::candidate::{proxy_views, Proxy, ProxyView};
use crate::text::{decimal, push_decimal};

verus! {

/// The correlation tag of the candidate at position `index` of a batch:
/// `ip`, a colon, `port`, a hyphen, and `index` in decimal.
pub open spec fn tag_text(candidate: ProxyView, index: nat) -> Seq<char> {
    candidate.ip + seq![':'] + candidate.port + seq!['-'] + decimal(index)
}

/// The name that every field of a verification request bears.
pub open spec fn field_name() -> Seq<char> {
    "ip_addr[]"@
}

/// One text field of a multi-part form.
#[derive(Debug)]
pub struct FormField {
    pub name: String,
    pub value: String,
}

/// What a [`FormField`] holds, as sequences of characters.
pub struct FormFieldView {
    pub name: Seq<char>,
    pub value: Seq<char>,
}

impl View for FormField {
    type V = FormFieldView;

    open spec fn view(&self) -> FormFieldView {
        FormFieldView { name: self.name@, value: self.value@ }
    }
}

/// The views of a sequence of fields, in the same order.
pub open spec fn field_views(fields: Seq<FormField>) -> Seq<FormFieldView> {
    fields.map_values(|f: FormField| f@)
}

/// The fields of the request that verifies `candidates`: as many as there are
/// candidates and in their order, all under one name, each valued with the
/// tag of its candidate.
pub open spec fn fields_for(candidates: Seq<ProxyView>) -> Seq<FormFieldView> {
    Seq::new(
        candidates.len(),
        |i: int| FormFieldView { name: field_name(), value: tag_text(candidates[i], i as nat) },
    )
}

/// Writes the correlation tag of `candidate` at position `index`.
pub fn encode_tag(candidate: &Proxy, index: usize) -> (tag: String)
    ensures
        tag@ == tag_text(candidate@, index as nat),
{
    let mut tag = candidate.ip.clone();
    tag.push(':');
    tag.append(candidate.port.as_str());
    tag.push('-');
    push_decimal(&mut tag, index);
    tag
}

/// Encodes a batch of candidates as the fields of one verification request.
///
/// Every candidate gives one field, in the order of the batch; the position
/// that a tag carries is the candidate's position in `candidates`.
pub fn encode_batch(candidates: &[Proxy]) -> (fields: Vec<FormField>)
    ensures
        fields@.len() == candidates@.len(),
        field_views(fields@) == fields_for(proxy_views(candidates@)),
{
    let mut fields: Vec<FormField> = Vec::new();
    let n = candidates.len();
    let mut i: usize = 0;
    while i < n
        invariant
            n == candidates@.len(),
            i <= n,
            fields@.len() == i,
            forall|j: int|
                0 <= j < i ==> (#[trigger] fields@[j])@ == fields_for(proxy_views(candidates@))[j],
        decreases n - i,
    {
        let field = FormField {
            name: String::from_str("ip_addr[]"),
            value: encode_tag(&candidates[i], i),
        };
        fields.push(field);
        i += 1;
    }
    fields
}

} // verus!

use vstd::prelude::*;
use vstd::string::{StringExecFns, StringSliceAdditionalSpecFns};
use vstd::utf8::{decode_utf8, encode_utf8_decode_utf8, valid_utf8};
use crate::error::DocxError;
use crate::xml::{
    attributes_model, decode_text, scan_attributes, xml_attributes, Attribute, AttributeModel,
};

verus! {

impl AttributeModel {
    /// Both the key and the value are valid UTF-8.
    pub open spec fn is_text(self) -> bool {
        valid_utf8(self.key) && valid_utf8(self.value)
    }

    /// The style fragment of one attribute: `key=value;`, with the key and the
    /// value as they are. Neither `=` nor `;` is escaped, so a key or a value
    /// that holds one of them cannot be told from two fragments afterwards.
    pub open spec fn fragment(self) -> Seq<char> {
        decode_utf8(self.key) + seq!['='] + decode_utf8(self.value) + seq![';']
    }
}

/// Every attribute of the list is text.
pub open spec fn all_text(attributes: Seq<AttributeModel>) -> bool {
    forall|i: int| 0 <= i < attributes.len() ==> (#[trigger] attributes[i]).is_text()
}

/// The fragments of the first `n` attributes, in the order of the list.
pub open spec fn flattened(attributes: Seq<AttributeModel>, n: nat) -> Seq<char>
    decreases n,
{
    if n == 0 || n > attributes.len() {
        Seq::empty()
    } else {
        flattened(attributes, (n - 1) as nat) + attributes[n - 1].fragment()
    }
}

/// Flattening keeps the order of the attributes: one more attribute at the end
/// of the list adds its fragment, separator included, at the end of the style.
pub proof fn lemma_flattened_appends(attributes: Seq<AttributeModel>, attribute: AttributeModel)
    ensures
        flattened(attributes.push(attribute), attributes.len() + 1) == flattened(
            attributes,
            attributes.len(),
        ) + attribute.fragment(),
        attribute.fragment().last() == ';',
{
    lemma_flattened_prefix(attributes, attributes.push(attribute), attributes.len());
}

/// The style of a prefix of the attributes does not depend on what follows it.
pub proof fn lemma_flattened_prefix(a: Seq<AttributeModel>, b: Seq<AttributeModel>, n: nat)
    requires
        n <= a.len(),
        n <= b.len(),
        forall|i: int| 0 <= i < n ==> a[i] == b[i],
    ensures
        flattened(a, n) == flattened(b, n),
    decreases n,
{
    if n > 0 {
        lemma_flattened_prefix(a, b, (n - 1) as nat);
    }
}

/// The style fragment of a whole element, from the raw text that follows the
/// name in its tag: `None` where that text is not valid UTF-8, where the
/// tokenizer finds a malformed attribute in it, or where an attribute is not
/// text.
pub open spec fn style_fragment(raw: Seq<u8>) -> Option<Seq<char>> {
    if !valid_utf8(raw) {
        None
    } else {
        match xml_attributes(decode_utf8(raw)) {
            None => None,
            Some(attributes) => if all_text(attributes) {
                Some(flattened(attributes, attributes.len()))
            } else {
                None
            },
        }
    }
}

/// The bytes as a string, where they are valid UTF-8.
pub fn text_of(bytes: &[u8]) -> (text: Option<&str>)
    ensures
        text is Some <==> valid_utf8(bytes@),
        text matches Some(text) ==> text@ == decode_utf8(bytes@),
{
    let text = decode_text(bytes);
    proof {
        if let Some(text) = text {
            encode_utf8_decode_utf8(text@);
        }
    }
    text
}

/// Flattens the attributes of one element into a style fragment,
/// `key1=value1;key2=value2;...`, in the order of the list. It fails if and
/// only if some key or value is not valid UTF-8.
pub fn analyze_attributes(attributes: &Vec<Attribute>) -> (style: Result<String, DocxError>)
    ensures
        match style {
            Ok(style) => all_text(attributes_model(attributes@)) && style@ == flattened(
                attributes_model(attributes@),
                attributes@.len(),
            ),
            Err(error) => error == DocxError::AttributeDecode && !all_text(
                attributes_model(attributes@),
            ),
        },
{
    let ghost model = attributes_model(attributes@);
    let mut style = String::new();
    let mut i: usize = 0;
    while i < attributes.len()
        invariant
            i <= attributes.len(),
            model == attributes_model(attributes@),
            forall|k: int| 0 <= k < i ==> (#[trigger] model[k]).is_text(),
            style@ == flattened(model, i as nat),
        decreases attributes.len() - i,
    {
        let attribute = &attributes[i];
        assert(model[i as int] == attribute@);
        let key = match text_of(attribute.key.as_slice()) {
            Some(key) => key,
            None => {
                return Err(DocxError::AttributeDecode);
            },
        };
        let value = match text_of(attribute.value.as_slice()) {
            Some(value) => value,
            None => {
                return Err(DocxError::AttributeDecode);
            },
        };
        let ghost before = style@;
        style.append(key);
        style.append("=");
        style.append(value);
        style.append(";");
        proof {
            reveal_strlit("=");
            reveal_strlit(";");
            assert("="@ =~= seq!['=']);
            assert(";"@ =~= seq![';']);
            assert(style@ =~= before + model[i as int].fragment());
        }
        i += 1;
    }
    Ok(style)
}

/// The style fragment of an element, from the raw text that follows the name
/// in its tag.
pub fn flatten_tag(raw: &[u8]) -> (style: Result<String, DocxError>)
    ensures
        match style {
            Ok(style) => style_fragment(raw@) == Some(style@),
            Err(error) => error == DocxError::AttributeDecode && style_fragment(raw@) is None,
        },
{
    let text = match text_of(raw) {
        Some(text) => text,
        None => {
            return Err(DocxError::AttributeDecode);
        },
    };
    match scan_attributes(text) {
        Some(attributes) => analyze_attributes(&attributes),
        None => Err(DocxError::AttributeDecode),
    }
}

} // verus!

use vstd::prelude::*;

verus! {

pub open spec fn digit_char(d: nat) -> char {
    if d == 0 { '0' }
    else if d == 1 { '1' }
    else if d == 2 { '2' }
    else if d == 3 { '3' }
    else if d == 4 { '4' }
    else if d == 5 { '5' }
    else if d == 6 { '6' }
    else if d == 7 { '7' }
    else if d == 8 { '8' }
    else { '9' }
}

/// Decimal digits of `n`, most significant first, without leading zeros.
pub open spec fn decimal(n: nat) -> Seq<char>
    decreases n,
{
    if n < 10 {
        seq![digit_char(n)]
    } else {
        decimal(n / 10) + seq![digit_char(n % 10)]
    }
}

/// Compact JSON text of the animation descriptor, keys in sorted order:
/// `{"animation":{"frametime":T,"height":H,"width":W}}`.
pub open spec fn descriptor_text(frame_time: nat, width: nat, height: nat) -> Seq<char> {
    "{\"animation\":{\"frametime\":"@ + decimal(frame_time) + ",\"height\":"@ + decimal(height)
        + ",\"width\":"@ + decimal(width) + "}}"@
}

/// Relies on serde_json: `Value::to_string` writes an object compactly, its
/// keys in the map's order (sorted by default, and inserted sorted here), and
/// unsigned integers in plain decimal.
#[verifier::external_body]
pub(crate) fn animation_json(frame_time: u16, width: u32, height: u32) -> (r: String)
    ensures
        r@ == descriptor_text(frame_time as nat, width as nat, height as nat),
{
    let mut anim = serde_json::Map::new();
    anim.insert(String::from("frametime"), serde_json::Value::from(frame_time));
    anim.insert(String::from("height"), serde_json::Value::from(height));
    anim.insert(String::from("width"), serde_json::Value::from(width));
    let mut root = serde_json::Map::new();
    root.insert(String::from("animation"), serde_json::Value::Object(anim));
    serde_json::Value::Object(root).to_string()
}

} // verus!

//! What a stage says of itself, from what was recorded of it.
use crate::error::ErrorView;
use crate::num::Double;
use crate::scene::{LayerProbe, UpAxis};
use crate::stage::StageView;
use crate::table::FieldKey;
use crate::value::Value;
use vstd::prelude::*;

verus! {

/// A text ends in `.usdc`, in letters of either case.
pub open spec fn ends_in_usdc(s: Seq<char>) -> bool {
    let n = s.len() as int;
    &&& n >= 5
    &&& s[n - 5] == '.'
    &&& s[n - 4] == 'u' || s[n - 4] == 'U'
    &&& s[n - 3] == 's' || s[n - 3] == 'S'
    &&& s[n - 2] == 'd' || s[n - 2] == 'D'
    &&& s[n - 1] == 'c' || s[n - 1] == 'C'
}

/// A text ends in `.usd`, in letters of either case.
pub open spec fn ends_in_usd(s: Seq<char>) -> bool {
    let n = s.len() as int;
    &&& n >= 4
    &&& s[n - 4] == '.'
    &&& s[n - 3] == 'u' || s[n - 3] == 'U'
    &&& s[n - 2] == 's' || s[n - 2] == 'S'
    &&& s[n - 1] == 'd' || s[n - 1] == 'D'
}

/// The eight bytes that a binary layer starts with.
pub open spec fn is_crate_head(h: Seq<u8>) -> bool {
    &&& h.len() == 8
    &&& h[0] == 'P' as u8
    &&& h[1] == 'X' as u8
    &&& h[2] == 'R' as u8
    &&& h[3] == '-' as u8
    &&& h[4] == 'U' as u8
    &&& h[5] == 'S' as u8
    &&& h[6] == 'D' as u8
    &&& h[7] == 'C' as u8
}

/// A letter from A to Z becomes the small one, which is thirty-two further on; every other
/// character stays, and a text is as long as before.
pub proof fn law_lowercase(s: Seq<char>, i: int)
    requires
        0 <= i < s.len(),
    ensures
        crate::text::ascii_lowercase(s).len() == s.len(),
        65 <= s[i] as int <= 90 ==> crate::text::ascii_lowercase(s)[i] as int == s[i] as int + 32,
        !(65 <= s[i] as int <= 90) ==> crate::text::ascii_lowercase(s)[i] == s[i],
{
}

/// The name of a layer says that it is binary exactly where it ends in `.usdc`, and leaves it
/// open exactly where it ends in `.usd`, whatever the case of the letters.
pub proof fn law_layer_name(id: Seq<char>)
    ensures
        crate::scene::probe(id) == LayerProbe::Binary <==> ends_in_usdc(id),
        crate::scene::probe(id) == LayerProbe::ReadHead <==> ends_in_usd(id),
        crate::scene::probe(id) == LayerProbe::NotBinary <==> !ends_in_usdc(id) && !ends_in_usd(id),
{
    reveal_strlit(".usdc");
    reveal_strlit(".usd");
    let low = crate::text::ascii_lowercase(id);
    let n = id.len() as int;
    let five = low.skip(n - 5);
    let four = low.skip(n - 4);
    if n >= 5 {
        assert(five[0] == low[n - 5] && five[1] == low[n - 4] && five[2] == low[n - 3] && five[3]
            == low[n - 2] && five[4] == low[n - 1]);
        if ends_in_usdc(id) {
            assert(five =~= ".usdc"@);
        }
        if five == ".usdc"@ {
            assert(five[0] == '.' && five[1] == 'u' && five[2] == 's' && five[3] == 'd' && five[4]
                == 'c');
        }
    }
    if n >= 4 {
        assert(four[0] == low[n - 4] && four[1] == low[n - 3] && four[2] == low[n - 2] && four[3]
            == low[n - 1]);
        if ends_in_usd(id) {
            assert(four =~= ".usd"@);
        }
        if four == ".usd"@ {
            assert(four[0] == '.' && four[1] == 'u' && four[2] == 's' && four[3] == 'd');
        }
    }
}

/// The root layer is binary where its name ends in `.usdc`; where it ends in `.usd`, exactly if
/// the file starts with the eight bytes of a binary layer; and nowhere else.
pub proof fn law_root_layer(s: StageView, head: Option<[u8; 8]>)
    ensures
        s.root_layer_is_binary(head) <==> ends_in_usdc(s.identifier) || (ends_in_usd(s.identifier)
            && (head matches Some(h) && is_crate_head(h@))),
{
    law_layer_name(s.identifier);
    if let Some(h) = head {
        if is_crate_head(h@) {
            assert(h@ =~= crate::scene::magic());
        }
    }
}

/// The up axis is Y exactly where the root has the token or the string `Y` for it, and Z exactly
/// where it has `Z`; in every other case there is none.
pub proof fn law_up_axis(s: StageView)
    ensures
        s.up_axis() == Some(UpAxis::Y) <==> s.values.contains_key((seq!['/'], FieldKey::UpAxis))
            && match s.values[(seq!['/'], FieldKey::UpAxis)] {
            Ok(Value::Token(x)) => x@ == seq!['Y'],
            Ok(Value::String(x)) => x@ == seq!['Y'],
            _ => false,
        },
        s.up_axis() == Some(UpAxis::Z) <==> s.values.contains_key((seq!['/'], FieldKey::UpAxis))
            && match s.values[(seq!['/'], FieldKey::UpAxis)] {
            Ok(Value::Token(x)) => x@ == seq!['Z'],
            Ok(Value::String(x)) => x@ == seq!['Z'],
            _ => false,
        },
{
    reveal_strlit("Y");
    reveal_strlit("Z");
    assert("Y"@ =~= seq!['Y']);
    assert("Z"@ =~= seq!['Z']);
    assert(seq!['Y'][0] != seq!['Z'][0]);
}

/// The meters per unit are the double or the float that the root has for them; in every other
/// case there are none.
pub proof fn law_meters_per_unit(s: StageView)
    ensures
        s.values.contains_key((seq!['/'], FieldKey::MetersPerUnit)) ==> match s.values[(
            seq!['/'],
            FieldKey::MetersPerUnit,
        )] {
            Ok(Value::Double(v)) => s.meters_per_unit() == Some(v),
            Ok(Value::Float(v)) => s.meters_per_unit() == Some(v.widened()),
            _ => s.meters_per_unit() is None,
        },
        !s.values.contains_key((seq!['/'], FieldKey::MetersPerUnit)) ==> s.meters_per_unit()
            is None,
{
}

/// What a stage says of itself is what was recorded for the root.
pub proof fn law_metadata(s: StageView, key: FieldKey)
    ensures
        s.values.contains_key((seq!['/'], key)) ==> match s.values[(seq!['/'], key)] {
            Ok(v) => s.metadata(key) == Ok::<Option<Value>, ErrorView>(Some(v)),
            Err(e) => s.metadata(key) == Err::<Option<Value>, ErrorView>(e),
        },
        !s.values.contains_key((seq!['/'], key)) ==> s.metadata(key) == Ok::<
            Option<Value>,
            ErrorView,
        >(None),
{
}

/// What a stage says of itself hangs on nothing but the entries of the root: two stages that agree
/// on them say the same.
pub proof fn law_metadata_is_of_the_root(s: StageView, t: StageView)
    requires
        s.field(seq!['/'], FieldKey::UpAxis) == t.field(seq!['/'], FieldKey::UpAxis),
        s.field(seq!['/'], FieldKey::MetersPerUnit) == t.field(seq!['/'], FieldKey::MetersPerUnit),
    ensures
        s.up_axis() == t.up_axis(),
        s.meters_per_unit() == t.meters_per_unit(),
{
}

} // verus!

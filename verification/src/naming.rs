//! Random default device names: an adjective word and a noun word from
//! built-in Chinese word lists (such as 晨雾微风). Only the first default;
//! users can rename at any time.

use rand::seq::SliceRandom;
use vstd::prelude::*;
use vstd::string::*;

verus! {

broadcast use vstd::string::group_string_axioms;

/// Adjective / modifier words.
pub const ADJECTIVES: [&'static str; 20] = [
    "晨雾", "微风", "静水", "流云", "暖阳", "幽谷", "疏星", "清露", "远山", "归舟", "落霞", "听雨",
    "踏雪", "望月", "拾光", "寻芳", "煮茶", "观潮", "栖林", "枕书",
];

/// Noun / image words.
pub const NOUNS: [&'static str; 20] = [
    "微风", "归鸟", "山岚", "孤舟", "晚钟", "新荷", "竹影", "松涛", "海月", "星河", "灯火", "桥影",
    "渡口", "野渡", "苔痕", "檐角", "回廊", "石阶", "扁舟", "栖鹤",
];

/// `words.choose(&mut thread_rng())`: a word picked at random, one of the
/// list; `None` only for an empty list.
#[verifier::external_body]
fn choose_word(words: &[&'static str]) -> (w: Option<&'static str>)
    ensures
        w is Some <==> words@.len() > 0,
        w matches Some(x) ==> exists|i: int| 0 <= i < words@.len() && words@[i] == x,
{
    words.choose(&mut rand::thread_rng()).copied()
}

/// Whether a name is an adjective followed by a noun of the word lists.
pub open spec fn random_name_view(name: Seq<char>) -> bool {
    exists|i: int, j: int|
        0 <= i < 20 && 0 <= j < 20 && name == ADJECTIVES@[i]@ + NOUNS@[j]@
}

/// A random device name: one adjective and one noun of the word lists.
pub fn random_name() -> (name: String)
    ensures
        random_name_view(name@),
{
    let adj = match choose_word(ADJECTIVES.as_slice()) {
        Some(w) => w,
        None => "无名",
    };
    let noun = match choose_word(NOUNS.as_slice()) {
        Some(w) => w,
        None => "设备",
    };
    let mut name = String::from_str(adj);
    name.append(noun);
    name
}

} // verus!

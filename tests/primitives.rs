use pod2::eddsa::{u64_to_u32, EddsaPublicKeyTarget, EddsaSignatureTarget, JubjubPoint, MessageHashTarget, PoseidonOutputTarget};
use pod2::field::{canonical, field_sub, GOLDILOCKS_ORDER};
use pod2::podcount::Podcount;
use pod2::statement::Entry;
use pod2::text::numbered;
use pod2::tree::RecursionTree;

#[test]
fn test_constrain_sig() {
    let px = u64_to_u32(&vec![14816813974455191966, 5621129177994019323, 12490529648725145515, 2248846258813109077]);
    let py = u64_to_u32(&vec![3097575793274345236, 15962616084270543162, 8589537196731344667, 1113026192110903546]);
    let msg = u64_to_u32(&vec![14083847773837265618, 6692605942, 0, 0]);
    let r_x = u64_to_u32(&vec![3702867781738010923, 14038445494684018940, 2926507124369429729, 656908260954674802]);
    let r_y = u64_to_u32(&vec![15389942651936426876, 9092269394130748824, 5881620769130576924, 3001649752140069537]);
    let s = u64_to_u32(&vec![6537028312969761294, 10681752862721662900, 14992547060379445581, 133925459310743680]);
    let h = u64_to_u32(&vec![2709608945152055826, 8217237346447623338, 9578917324956230137, 552733937179642407]);
    assert_eq!(px.len(), 8);
    assert_eq!(px[0], (14816813974455191966u64 & 0xFFFF_FFFF) as u32);
    assert_eq!(px[1], (14816813974455191966u64 >> 32) as u32);
    assert_eq!(msg[2], (6692605942u64 & 0xFFFF_FFFF) as u32);
    assert_eq!(msg[3], 1);
    assert_eq!(&msg[4..], &[0, 0, 0, 0]);
    let pk = EddsaPublicKeyTarget { a: JubjubPoint { x: px, y: py } };
    let sig = EddsaSignatureTarget { r: JubjubPoint { x: r_x, y: r_y }, s };
    let msg = MessageHashTarget { m: msg };
    let hash = PoseidonOutputTarget { h };
    assert_eq!(pk.a.y[7], (1113026192110903546u64 >> 32) as u32);
    assert_eq!(sig.s[6], (133925459310743680u64 & 0xFFFF_FFFF) as u32);
    assert_eq!(msg.m.len(), 8);
    assert_eq!(hash.h[0], (2709608945152055826u64 & 0xFFFF_FFFF) as u32);
    let l_x = u64_to_u32(&vec![6769147921293935476, 15234125309804266507, 13638367337124659210, 2737797199439730818]);
    let htpk_y = u64_to_u32(&vec![11852217244879769029, 733283315823029871, 4390128762781367190, 1336738926330490135]);
    assert_eq!(l_x.len(), 8);
    assert_eq!(htpk_y[2], (733283315823029871u64 & 0xFFFF_FFFF) as u32);
    let rest = [8193767042881930160u64, 8036380828119749438, 15022032414377487346, 2478297568907217475, 9360752292746738455, 7922225397280932462, 2682949893567020685, 1952627290260948083];
    assert_eq!(u64_to_u32(&rest.to_vec()).len(), 16);
}

#[test]
fn empty_words_give_no_limbs() {
    assert_eq!(u64_to_u32(&vec![]), Vec::<u32>::new());
    assert_eq!(u64_to_u32(&vec![u64::MAX]), vec![u32::MAX, u32::MAX]);
}

#[test]
fn field_elements_are_canonical() {
    assert_eq!(GOLDILOCKS_ORDER, 18446744069414584321);
    assert_eq!(canonical(GOLDILOCKS_ORDER + 5), 5);
    assert_eq!(canonical(GOLDILOCKS_ORDER), 0);
    assert_eq!(canonical(42), 42);
    assert_eq!(Entry::new_from_scalar("k", u64::MAX).value, u64::MAX - GOLDILOCKS_ORDER);
    assert_eq!(field_sub(5, 7), GOLDILOCKS_ORDER - 2);
    assert_eq!(field_sub(7, 5), 2);
    assert_eq!(field_sub(9, 9), 0);
}

#[test]
fn podcount_label() {
    assert_eq!(Podcount::new(0).label(), "0 pods");
    assert_eq!(Podcount::new(7).label(), "7 pods");
    assert_eq!(Podcount::new(1205).label(), "1205 pods");
}

#[test]
fn numbered_appends_decimal() {
    assert_eq!(numbered("_DUMMYSCHNORR", 120), "_DUMMYSCHNORR120");
    assert_eq!(numbered("", 9), "9");
}

#[test]
fn recursion_tree_shape() {
    assert_eq!(RecursionTree::<2>::next_level_count(4), 2);
    assert_eq!(RecursionTree::<2>::next_level_count(5), 3);
    assert_eq!(RecursionTree::<3>::next_level_count(0), 0);
    assert_eq!(RecursionTree::<1>::next_level_count(7), 7);
    assert_eq!(RecursionTree::<2>::depth(1), 0);
    assert_eq!(RecursionTree::<2>::depth(4), 2);
    assert_eq!(RecursionTree::<2>::depth(5), 3);
    assert_eq!(RecursionTree::<3>::depth(9), 2);
    assert_eq!(RecursionTree::<3>::depth(10), 3);
    assert_eq!(RecursionTree::<2>::depth(usize::MAX), 64);
}

#![allow(non_snake_case)]

use levelance::decode;

#[test]
fn test_AAA() {
    assert_eq!("3", decode("LPSAAALP").unwrap());
}

#[test]
fn test_AXW() {
    assert_eq!("4", decode("LPSAXWLP").unwrap());
}

#[test]
fn test_BBB() {
    assert_eq!("0", decode("LPSBBBLP").unwrap());
}

#[test]
fn test_BGB() {
    assert_eq!("5", decode("LPSBGBLP").unwrap());
}

#[test]
fn test_BBC() {
    assert_eq!("1", decode("LPSBBCLP").unwrap());
}

#[test]
fn test_ADB() {
    assert_eq!("2", decode("LPSADBLP").unwrap());
}

#[test]
fn test_GDC() {
    assert_eq!("9", decode("LPSGDCLP").unwrap());
}

#[test]
fn test_AAE() {
    assert_eq!("4", decode("LPSAAELP").unwrap());
}

#[test]
fn test_GAE() {
    assert_eq!("6", decode("LPSGAELP").unwrap());
}

#[test]
fn test_FBB() {
    assert_eq!("1", decode("LPSFBBLP").unwrap());
}

#[test]
fn test_BFB() {
    assert_eq!("1", decode("LPSBFBLP").unwrap());
}

#[test]
fn test_BHA() {
    assert_eq!("6", decode("LPSBHALP").unwrap());
}

#[test]
fn test_BHH() {
    assert_eq!("5", decode("LPSBHHLP").unwrap());
}

#[test]
fn test_GAH() {
    assert_eq!("5", decode("LPSGAHLP").unwrap());
}

#[test]
fn test_IBB() {
    assert_eq!("1", decode("LPSIBBLP").unwrap());
}

#[test]
fn test_BIG() {
    assert_eq!("7", decode("LPSBIGLP").unwrap());
}

#[test]
fn test_BBI() {
    assert_eq!("3", decode("LPSBBILP").unwrap());
}

#[test]
fn test_JJJ() {
    assert_eq!("4", decode("LPSJJJLP").unwrap());
}

#[test]
fn test_JJJBBB() {
    assert_eq!("30", decode("LPSJJJBBBLP").unwrap());
}

#[test]
fn test_KJB() {
    assert_eq!("0", decode("LPSKJBLP").unwrap());
}

#[test]
fn test_AKB() {
    assert_eq!("7", decode("LPSAKBLP").unwrap());
}

#[test]
fn test_BAL() {
    assert_eq!("4", decode("LPSBALLP").unwrap());
}

#[test]
fn test_AAM() {
    assert_eq!("6", decode("LPSAAMLP").unwrap());
}

#[test]
fn test_AAN() {
    assert_eq!("4", decode("LPSAANLP").unwrap());
}

#[test]
fn test_NAN() {
    assert_eq!("5", decode("LPSNANLP").unwrap());
}

#[test]
fn test_BBO() {
    assert_eq!("3", decode("LPSBBOLP").unwrap());
}

#[test]
fn test_AAO() {
    assert_eq!("1", decode("LPSAAOLP").unwrap());
}

#[test]
fn test_GOB() {
    assert_eq!("3", decode("LPSGOBLP").unwrap());
}

#[test]
fn test_PAN() {
    assert_eq!("6", decode("LPSPANLP").unwrap());
}

#[test]
fn test_NGP() {
    assert_eq!("8", decode("LPSNGPLP").unwrap());
}

#[test]
fn test_BPB() {
    assert_eq!("2", decode("LPSBPBLP").unwrap());
}

#[test]
fn test_BPQ() {
    assert_eq!("1", decode("LPSBPQLP").unwrap());
}

#[test]
fn test_QGB() {
    assert_eq!("2", decode("LPSQGBLP").unwrap());
}

#[test]
fn test_RAR() {
    assert_eq!("1", decode("LPSRARLP").unwrap());
}

#[test]
fn test_SAS() {
    assert_eq!("1", decode("LPSSASLP").unwrap());
}

#[test]
fn test_AAR() {
    assert_eq!("1", decode("LPSAARLP").unwrap());
}

#[test]
fn test_BBT() {
    assert_eq!("4", decode("LPSBBTLP").unwrap());
}

#[test]
fn test_BTB() {
    assert_eq!("3", decode("LPSBTBLP").unwrap());
}

#[test]
fn test_TBB() {
    assert_eq!("2", decode("LPSTBBLP").unwrap());
}

#[test]
fn test_ABU() {
    assert_eq!("6", decode("LPSABULP").unwrap());
}

#[test]
fn test_NUB() {
    assert_eq!("4", decode("LPSNUBLP").unwrap());
}

#[test]
fn test_GNV() {
    assert_eq!("0", decode("LPSGNVLP").unwrap());
}

#[test]
fn test_WWB() {
    assert_eq!("2", decode("LPSWWBLP").unwrap());
}

#[test]
fn test_XXB() {
    assert_eq!("2", decode("LPSXXBLP").unwrap());
}

#[test]
fn test_XAX() {
    assert_eq!("5", decode("LPSXAXLP").unwrap());
}

#[test]
fn test_XBB() {
    assert_eq!("2", decode("LPSXBBLP").unwrap());
}

#[test]
fn test_XXA() {
    assert_eq!("5", decode("LPSXXALP").unwrap());
}

#[test]
fn test_WWA() {
    assert_eq!("3", decode("LPSWWALP").unwrap());
}

#[test]
fn test_WAB() {
    assert_eq!("7", decode("LPSWABLP").unwrap());
}

#[test]
fn test_WXB() {
    assert_eq!("7", decode("LPSWXBLP").unwrap());
}

#[test]
fn test_GNY() {
    assert_eq!("0", decode("LPSGNYLP").unwrap());
}

#[test]
fn test_YYN() {
    assert_eq!("2", decode("LPSYYNLP").unwrap());
}

#[test]
fn test_AYY() {
    assert_eq!("9", decode("LPSAYYLP").unwrap());
}

#[test]
fn test_YVA() {
    assert_eq!("3", decode("LPSYVALP").unwrap());
}

#[test]
fn test_GNZ() {
    assert_eq!("0", decode("LPSGNZLP").unwrap());
}

#[test]
fn test_ZZZ() {
    assert_eq!("0", decode("LPSZZZLP").unwrap());
}

#[test]
fn test_empty() {
    assert_eq!("", decode("LPSLP").unwrap());
}

#[test]
fn test_empty_with_dots() {
    assert_eq!("...", decode("LPS...LP").unwrap());
}

#[test]
fn test_empty_with_dot() {
    assert_eq!(".", decode("LPS.LP").unwrap());
}

#[test]
fn test_AAA_with_dots() {
    assert_eq!(".3.", decode("LPS.AAA.LP").unwrap());
}

#[test]
fn test_AAA_with_extra_dots() {
    assert_eq!(".3..", decode("LPS.AAA..LP").unwrap());
}

#[test]
fn test_AAA_dot_BBB() {
    assert_eq!("3.0", decode("LPSAAA.BBBLP").unwrap());
}

use rudderc::parser::{
    map_res, pcomment, penum, pheader, pidentifier, spa, spi, strip_spaces_and_comment, PComment,
    PEnum, PErrorKind, PHeader,
};

#[test]
fn test_spaces_and_comment() {
    assert_eq!(map_res(strip_spaces_and_comment, ""), Ok(("", ())));
    assert_eq!(map_res(strip_spaces_and_comment, "  \t\n"), Ok(("", ())));
    assert_eq!(
        map_res(strip_spaces_and_comment, "  \nhello "),
        Ok(("hello ", ()))
    );
    assert_eq!(
        map_res(
            strip_spaces_and_comment,
            "  \n#comment1 \n # comment2\n\n#comment3\n youpi"
        ),
        Ok(("youpi", ()))
    );
    assert_eq!(
        map_res(strip_spaces_and_comment, " #lastline\n#"),
        Ok(("", ()))
    );
}

#[test]
fn test_spa() {
    assert_eq!(
        map_res(|i| spa(pidentifier, i), "hello world  "),
        Ok(("world  ", "hello".into()))
    );
    assert_eq!(
        map_res(|i| spa(pidentifier, i), "hello  #comment\n"),
        Ok(("", "hello".into()))
    );
}

#[test]
fn test_spi() {
    assert_eq!(
        map_res(|i| spi(pidentifier, pidentifier, i), "hello world"),
        Ok(("", ("hello".into(), "world".into())))
    );
    assert_eq!(
        map_res(
            |i| spi(pidentifier, pidentifier, i),
            "hello \n#pouet\n world2"
        ),
        Ok(("", ("hello".into(), "world2".into())))
    );
    assert_eq!(
        map_res(
            |i| spi(pidentifier, pidentifier, i),
            "hello  world3 #comment\n"
        ),
        Ok(("", ("hello".into(), "world3".into())))
    );
}

#[test]
fn test_pheader() {
    assert_eq!(
        map_res(pheader, "@format=21\n"),
        Ok(("", PHeader { version: 21 }))
    );
    assert_eq!(
        map_res(pheader, "#!/bin/bash\n@format=1\n"),
        Ok(("", PHeader { version: 1 }))
    );
    assert_eq!(
        map_res(pheader, "@format=21.5\n"),
        Err(("21.5\n", PErrorKind::InvalidFormat))
    );
}

#[test]
fn test_pcomment() {
    assert_eq!(
        map_res(pcomment, "##hello Herman1\n"),
        Ok((
            "",
            PComment {
                lines: vec!["hello Herman1".into()]
            }
        ))
    );
    assert_eq!(
        map_res(pcomment, "##hello Herman2\nHola"),
        Ok((
            "Hola",
            PComment {
                lines: vec!["hello Herman2".into()]
            }
        ))
    );
    assert_eq!(
        map_res(pcomment, "##hello Herman3!"),
        Ok((
            "",
            PComment {
                lines: vec!["hello Herman3!".into()]
            }
        ))
    );
    assert_eq!(
        map_res(pcomment, "##hello1\nHerman\n"),
        Ok((
            "Herman\n",
            PComment {
                lines: vec!["hello1".into()]
            }
        ))
    );
    assert_eq!(
        map_res(pcomment, "##hello2\nHerman\n## 2nd line"),
        Ok((
            "Herman\n## 2nd line",
            PComment {
                lines: vec!["hello2".into()]
            }
        ))
    );
    assert_eq!(
        map_res(pcomment, "##hello\n##Herman\n"),
        Ok((
            "",
            PComment {
                lines: vec!["hello".into(), "Herman".into()]
            }
        ))
    );
    assert!(map_res(pcomment, "hello\nHerman\n").is_err());
}

#[test]
fn test_pidentifier() {
    assert_eq!(map_res(pidentifier, "simple "), Ok((" ", "simple".into())));
    assert_eq!(map_res(pidentifier, "simple?"), Ok(("?", "simple".into())));
    assert_eq!(map_res(pidentifier, "simpl3 "), Ok((" ", "simpl3".into())));
    assert_eq!(map_res(pidentifier, "5imple "), Ok((" ", "5imple".into())));
    assert_eq!(map_res(pidentifier, "héllo "), Ok((" ", "héllo".into())));
    assert_eq!(
        map_res(pidentifier, "simple_word "),
        Ok((" ", "simple_word".into()))
    );
    assert!(map_res(pidentifier, "%imple ").is_err());
}

#[test]
fn test_penum() {
    assert_eq!(
        map_res(penum, "enum abc { a, b, c }"),
        Ok((
            "",
            PEnum {
                global: false,
                name: "abc".into(),
                items: vec!["a".into(), "b".into(), "c".into()]
            }
        ))
    );
    assert_eq!(
        map_res(penum, "global enum abc { a, b, c }"),
        Ok((
            "",
            PEnum {
                global: true,
                name: "abc".into(),
                items: vec!["a".into(), "b".into(), "c".into()]
            }
        ))
    );
    assert_eq!(
        map_res(penum, "enum abc { a, b, }"),
        Ok((
            "",
            PEnum {
                global: false,
                name: "abc".into(),
                items: vec!["a".into(), "b".into()]
            }
        ))
    );
    assert_eq!(
        map_res(penum, "enum .abc { a, b, }"),
        Err((".abc { a, b, }", PErrorKind::InvalidName("enum")))
    );
    assert_eq!(
        map_res(penum, "enum abc a, b, }"),
        Err(("a, b, }", PErrorKind::UnexpectedToken("{")))
    );
    assert_eq!(
        map_res(penum, "enum abc { a, b, "),
        Err(("", PErrorKind::UnterminatedDelimiter("{")))
    );
}

#[test]
fn pheader_rejects_missing_tag_and_huge_version() {
    assert_eq!(
        map_res(pheader, "format=2\n"),
        Err(("format=2\n", PErrorKind::Expected("@format=")))
    );
    assert_eq!(
        map_res(pheader, "@format=99999999999\n"),
        Err(("99999999999\n", PErrorKind::InvalidFormat))
    );
    assert_eq!(
        map_res(pheader, "@format=4294967295\nrest"),
        Ok(("rest", PHeader { version: 4294967295 }))
    );
}

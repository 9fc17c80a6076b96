use restful_dsl::restful::{check_restful_code_err, RestfulParser};
use restful_dsl::tree::Rule;

#[test]
fn err() {
    let result = check_restful_code_err(
        r#"
                namespace java org.java
                import "../"
                asd
                "#,
    );
    println!("{:?}", result);
}

#[test]
fn namespace() {
    let result = RestfulParser::parse(Rule::Namespace, "namespace java   as_d.asd.asdddasd_GFA");
    assert!(result.is_ok());
    let result = RestfulParser::parse(Rule::Namespace, "namespace java _asd");
    assert!(result.is_ok());
    let result = RestfulParser::parse(Rule::Namespace, "namespace ts com.org.tools");
    assert!(result.is_ok());
}

#[test]
fn import() {
    let result = RestfulParser::parse(Rule::Import, r#"import  "../test.restl""#);
    assert!(result.is_ok());
    let result = RestfulParser::parse(Rule::Import, r#"import  "D:\test.restl""#);
    assert!(result.is_err());
}

#[test]
fn type_rule() {
    let result = RestfulParser::parse(Rule::Type, "UserEntity");
    assert!(result.is_ok());
    let result = RestfulParser::parse(Rule::Type, "Namespace.UserEntity");
    assert!(result.is_ok());
    let result = RestfulParser::parse(Rule::Type, "Namespace.User1_Entity");
    assert!(result.is_ok());
}

#[test]
fn class_field() {
    let result = RestfulParser::parse(Rule::ClassField, "map<i64, map<double,list<string>>>attr");
    assert!(result.is_ok());
    let result = RestfulParser::parse(Rule::ClassField, "optional Users.UserInfo attr");
    assert!(result.is_ok());
}

#[test]
fn enum_rule() {
    let result = RestfulParser::parse(
        Rule::Enum,
        r#"enum Platform{
                    ANDROID =1,
                    WINDOWS =2
                }"#,
    );
    assert!(result.is_ok());
    let result = RestfulParser::parse(
        Rule::Enum,
        r#"enum Platform {
                }"#,
    );
    assert!(result.is_ok());
}

#[test]
fn interface() {
    let result = RestfulParser::parse(
        Rule::Interface,
        r#"interface Asd{
                    i64 getNumber(i64 id, required list<string> name)
                }"#,
    );
    assert!(result.is_ok());
    let result = RestfulParser::parse(
        Rule::Interface,
        r#"interface Asd {
                    System.User getUser(optional map<i64, Attributes> data)
                }"#,
    );
    assert!(result.is_ok());
}

#[test]
fn root() {
    let content = r#" namespace java com.github.alphafoxz.oneboot.sdk.gen.restl.ifaces
            /*测试用。。。。格式不要太标准

            */
            namespace ts sdk.restl
            import "../structs/SdkResponseStruct.restl"

            //rest类型
            enum ThriftTypeEnum {
                SERVER=1,
                CLIENT = 2
            }

            class ThriftUpdateParam {
                //主键
                required i64 id
            string name
            ThriftTypeEnum type
                optional map<string, string>info
                optional SdkResponseStruct.SdkStringResponseStruct ext
            }

            class ThriftUpdateResponse
            {
                required boolean success
            }

            interface SdkThriftIface {
                ThriftUpdateResponse testFunction (optional ThriftUpdateParam  param )
            } "#;
    let result = RestfulParser::parse(Rule::Root, content);
    assert!(result.is_ok());
}

# yevice

A verified library that turns infrastructure code into parametric cost models.

CloudFormation templates, Terraform configurations and Wrangler configurations
are read and resolved, converted to an architecture of resources and
connections, and priced as expressions over usage variables.

## Layout

| Place           | Role                                                        |
| --------------- | ----------------------------------------------------------- |
| `src/text.rs`, `src/strmap.rs`, `src/path.rs` | text, sorted maps and paths   |
| `src/yaml.rs`, `src/json.rs`, `src/amount.rs` | documents and numbers         |
| `src/decode.rs` | what is said of values that cannot be read                  |
| `src/cfn/`      | templates, intrinsic functions, conversion to architectures |
| `src/tf/`       | configurations, variables and locals, conversion            |
| `src/wrangler/` | Wrangler configurations and the services that they use      |
| `src/pricing/`  | price tables, bulk price files, price catalogs              |
| `src/service/`  | services, quotas, the service catalog, provider plugins     |
| `src/engine/`   | input formats, registries, the way to a cost model          |
| `app/`          | files, downloads and serde documents around the library     |
| `tests/`        | tests of the library                                        |

Every function of `src/` has a contract over mathematical models: texts are
sequences of characters, maps are sequences of entries with rising keys, and
documents are trees. The public proof functions whose names begin with `law_`
state what holds across functions.

Documents are parsed by `serde_yaml_ng`, `hcl` and `toml`. `toml` also renders the
places of its errors, and `serde_json` one kind of error. The items that call
them, and three functions of the standard library on text, are the only ones that
are not proved; each says what it takes for granted.

Prices and usage are exact numbers in the library. `app/` turns them into
binary64 numbers.

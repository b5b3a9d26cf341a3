# neutron-ml2-guardian

A controller for Kubernetes that keeps third-party ML2 mechanism drivers of Neutron installed, without
a container image of its own. In each pass it checks whether every configured driver is loaded in a
running `neutron-server` pod, and repairs those that are absent: it lists the driver in
`mechanism_drivers`, makes the start script read the driver's own settings, downloads its wheels, and
injects an init container that installs them. Wheels that are made for one image are downloaded again
when the image changes. In a dry run, the default, it only says what it would do, and takes out
whatever it has installed before.

- `src/` is the library: every decision, as functions with contracts that Verus proves. A reconcile
  pass (`reconcile::run_once`) and a download of wheels (`wheelcache::refresh`) are machines: they ask
  for one thing at a time, and each answer takes them one step further.
- `app/` is the program around it: settings from the environment and a file, the Kubernetes API, the
  HTTP server for health and metrics, logs and telemetry.
- `tests/` runs the library, with a small cluster in memory for whole passes.

Modules of the library whose names end in `laws` state what holds of every run, such as that a dry run
only takes out, that a repair patches the Deployment last, and that every pass ends.

Settings are read from `LISTEN_ADDR`, `TARGET_NAMESPACE`, `HELM_RELEASE_NAME`, `DEPLOYMENT_NAME`,
`WHEELCACHE_PVC_NAME`, `RECONCILE_INTERVAL_SECS`, `DRY_RUN` and `DRIVERS_CONFIG_PATH`. The last names a
YAML file:

```yaml
ml2Drivers:
  - name: unifi
    pipPackage: unifi-ml2-driver
    importModule: unifi_ml2_driver
    extraConfigSecretRef: unifi-credentials
```
